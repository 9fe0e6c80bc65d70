//! The repository handle and the protocol by which its operations reach git.
//!
//! An operation never runs git itself. Called with the replies to the requests it made so
//! far, it either asks for the next request (`Step::Ask`) or finishes (`Step::Done`). The
//! caller performs each request (runs git, reads a file, ...) and calls the operation
//! again with one more reply. The operation is thus a pure function of its arguments and
//! of the replies, and its contract says which request comes at each point and what the
//! result is.
use vstd::prelude::*;
use crate::error::{Error, ErrorV};

verus! {

// ───────────────────────── requests and replies ─────────────────────────

/// A git command to run.
#[derive(Debug, Clone)]
pub struct GitCall {
    /// Directory to run in.
    pub dir: String,
    pub args: Vec<String>,
    /// Extra environment variables.
    pub env: Vec<(String, String)>,
    /// Text to write to git's stdin.
    pub stdin: Option<String>,
    /// A long operation: report its progress and let it be cancelled.
    pub streaming: bool,
}

/// What an operation asks its caller to do.
#[derive(Debug, Clone)]
pub enum Request {
    /// Run git; answered by `Reply::Git` (or `Failed` when git cannot be started).
    Git(GitCall),
    /// Run `git --version` to see whether git is installed; answered by `Reply::Git`.
    CheckGit,
    /// Does the path exist? Answered by `Reply::Bool`.
    Exists(String),
    /// Read a file as text; answered by `Reply::Text`.
    ReadFile(String),
    /// Read a file's bytes; answered by `Reply::Bytes`.
    ReadBytes(String),
    /// The size in bytes of a file; answered by `Reply::Size`.
    FileSize(String),
    /// Write a text file; answered by `Reply::Done`.
    WriteFile(String, String),
    /// Remove a file; answered by `Reply::Done`.
    RemoveFile(String),
    /// Remove a directory and its contents; answered by `Reply::Done`.
    RemoveDirAll(String),
    /// Create a directory and its parents; answered by `Reply::Done`.
    CreateDirAll(String),
    /// The id of the running process; answered by `Reply::Size`.
    ProcessId,
    /// Run a program with these arguments, writing the text to its standard input;
    /// answered by `Reply::Bool` (whether it ran and succeeded).
    RunProgram(String, Vec<String>, String),
}

/// The output of a finished git command.
#[derive(Debug, Clone)]
pub struct GitOutput {
    pub success: bool,
    pub code: Option<i32>,
    pub stdout: String,
    pub stderr: String,
}

/// The answer to a request.
#[derive(Debug, Clone)]
pub enum Reply {
    Git(GitOutput),
    Bool(bool),
    Text(String),
    Bytes(Vec<u8>),
    Size(u64),
    Done,
    /// The request could not be carried out (the message says why).
    Failed(String),
    /// The user cancelled a streaming request.
    Cancelled,
}

/// One step of an operation.
#[derive(Debug)]
pub enum Step<T> {
    /// Perform this request and call again with its reply appended.
    Ask(Request),
    /// The operation is over.
    Done(Result<T, Error>),
}

// ───────────────────────── views ─────────────────────────

pub struct GitCallV {
    pub dir: Seq<char>,
    pub args: Seq<Seq<char>>,
    pub env: Seq<(Seq<char>, Seq<char>)>,
    pub stdin: Option<Seq<char>>,
    pub streaming: bool,
}

pub enum RequestV {
    Git(GitCallV),
    CheckGit,
    Exists(Seq<char>),
    ReadFile(Seq<char>),
    ReadBytes(Seq<char>),
    FileSize(Seq<char>),
    WriteFile(Seq<char>, Seq<char>),
    RemoveFile(Seq<char>),
    RemoveDirAll(Seq<char>),
    CreateDirAll(Seq<char>),
    ProcessId,
    RunProgram(Seq<char>, Seq<Seq<char>>, Seq<char>),
}

pub struct GitOutV {
    pub success: bool,
    pub code: Option<i32>,
    pub stdout: Seq<char>,
    pub stderr: Seq<char>,
}

pub enum ReplyV {
    Git(GitOutV),
    Bool(bool),
    Text(Seq<char>),
    Bytes(Seq<u8>),
    Size(u64),
    Done,
    Failed(Seq<char>),
    Cancelled,
}

/// How an operation ends, or which request it makes next.
pub enum Outcome<A> {
    Ask(RequestV),
    Fail(ErrorV),
    Done(A),
}

pub open spec fn strs(v: Seq<String>) -> Seq<Seq<char>> {
    v.map_values(|s: String| s@)
}

pub open spec fn opt_str(o: Option<String>) -> Option<Seq<char>> {
    match o {
        Some(s) => Some(s@),
        None => None,
    }
}

impl GitCall {
    pub open spec fn view(&self) -> GitCallV {
        GitCallV {
            dir: self.dir@,
            args: strs(self.args@),
            env: self.env@.map_values(|p: (String, String)| (p.0@, p.1@)),
            stdin: opt_str(self.stdin),
            streaming: self.streaming,
        }
    }
}

impl Request {
    pub open spec fn view(&self) -> RequestV {
        match self {
            Request::Git(c) => RequestV::Git(c.view()),
            Request::CheckGit => RequestV::CheckGit,
            Request::Exists(p) => RequestV::Exists(p@),
            Request::ReadFile(p) => RequestV::ReadFile(p@),
            Request::ReadBytes(p) => RequestV::ReadBytes(p@),
            Request::FileSize(p) => RequestV::FileSize(p@),
            Request::WriteFile(p, t) => RequestV::WriteFile(p@, t@),
            Request::RemoveFile(p) => RequestV::RemoveFile(p@),
            Request::RemoveDirAll(p) => RequestV::RemoveDirAll(p@),
            Request::CreateDirAll(p) => RequestV::CreateDirAll(p@),
            Request::ProcessId => RequestV::ProcessId,
            Request::RunProgram(p, a, t) => RequestV::RunProgram(p@, strs(a@), t@),
        }
    }
}

impl GitOutput {
    pub open spec fn view(&self) -> GitOutV {
        GitOutV { success: self.success, code: self.code, stdout: self.stdout@, stderr: self.stderr@ }
    }
}

impl Reply {
    pub open spec fn view(&self) -> ReplyV {
        match self {
            Reply::Git(o) => ReplyV::Git(o.view()),
            Reply::Bool(b) => ReplyV::Bool(*b),
            Reply::Text(t) => ReplyV::Text(t@),
            Reply::Bytes(b) => ReplyV::Bytes(b@),
            Reply::Size(n) => ReplyV::Size(*n),
            Reply::Done => ReplyV::Done,
            Reply::Failed(m) => ReplyV::Failed(m@),
            Reply::Cancelled => ReplyV::Cancelled,
        }
    }
}

pub open spec fn replies_view(v: Seq<Reply>) -> Seq<ReplyV> {
    v.map_values(|r: Reply| r.view())
}

/// A step as an outcome, its result read through `f`.
pub open spec fn step_view<T, A>(s: Step<T>, f: spec_fn(T) -> A) -> Outcome<A> {
    match s {
        Step::Ask(q) => Outcome::Ask(q.view()),
        Step::Done(Ok(t)) => Outcome::Done(f(t)),
        Step::Done(Err(e)) => Outcome::Fail(e.view()),
    }
}

/// Continues an outcome with `k` once it is done.
pub open spec fn then<A, B>(o: Outcome<A>, k: spec_fn(A) -> Outcome<B>) -> Outcome<B> {
    match o {
        Outcome::Ask(q) => Outcome::Ask(q),
        Outcome::Fail(e) => Outcome::Fail(e),
        Outcome::Done(a) => k(a),
    }
}

/// Maps the result of a done outcome.
pub open spec fn map_done<A, B>(o: Outcome<A>, f: spec_fn(A) -> B) -> Outcome<B> {
    match o {
        Outcome::Ask(q) => Outcome::Ask(q),
        Outcome::Fail(e) => Outcome::Fail(e),
        Outcome::Done(a) => Outcome::Done(f(a)),
    }
}

pub open spec fn unexpected_reply() -> ErrorV {
    ErrorV::Io("unexpected reply"@)
}

/// The request a git call makes.
pub open spec fn git_req(dir: Seq<char>, args: Seq<Seq<char>>, env: Seq<(Seq<char>, Seq<char>)>, stdin: Option<Seq<char>>, streaming: bool) -> RequestV {
    RequestV::Git(GitCallV { dir, args, env, stdin, streaming })
}

/// Reply `k` to a git request: a reply still to come asks for the request; a git output
/// is the result (a failed command is an error when `must` succeed); a failure to run is
/// an I/O error; a cancelled run is `Cancelled`.
pub open spec fn git_reply(rs: Seq<ReplyV>, k: int, req: RequestV, must: bool) -> Outcome<GitOutV> {
    if k < 0 || k >= rs.len() {
        Outcome::Ask(req)
    } else {
        match rs[k] {
            ReplyV::Git(o) => if must && !o.success {
                Outcome::Fail(ErrorV::Git(
                    match req {
                        RequestV::Git(c) => c.args,
                        _ => Seq::empty(),
                    },
                    o.code,
                    o.stderr,
                ))
            } else {
                Outcome::Done(o)
            },
            ReplyV::Failed(m) => Outcome::Fail(ErrorV::Io(m)),
            ReplyV::Cancelled => Outcome::Fail(ErrorV::Cancelled),
            _ => Outcome::Fail(unexpected_reply()),
        }
    }
}

/// `git <args>` in `dir`, which must succeed: its stdout.
pub open spec fn run_git(rs: Seq<ReplyV>, k: int, dir: Seq<char>, args: Seq<Seq<char>>) -> Outcome<Seq<char>> {
    map_done(git_reply(rs, k, git_req(dir, args, Seq::empty(), None, false), true), |o: GitOutV| o.stdout)
}

/// `git <args>` in `dir`, its output whatever the exit status.
pub open spec fn run_checked(rs: Seq<ReplyV>, k: int, dir: Seq<char>, args: Seq<Seq<char>>) -> Outcome<GitOutV> {
    git_reply(rs, k, git_req(dir, args, Seq::empty(), None, false), false)
}

/// Reply `k` to a non-git request: the reply itself, unless it reports a failure.
pub open spec fn io_reply(rs: Seq<ReplyV>, k: int, req: RequestV) -> Outcome<ReplyV> {
    if k < 0 || k >= rs.len() {
        Outcome::Ask(req)
    } else {
        match rs[k] {
            ReplyV::Failed(m) => Outcome::Fail(ErrorV::Io(m)),
            ReplyV::Cancelled => Outcome::Fail(ErrorV::Cancelled),
            r => Outcome::Done(r),
        }
    }
}

/// Does `path` exist (reply `k`)?
pub open spec fn run_exists(rs: Seq<ReplyV>, k: int, path: Seq<char>) -> Outcome<bool> {
    then(io_reply(rs, k, RequestV::Exists(path)), |r: ReplyV| match r {
        ReplyV::Bool(b) => Outcome::Done(b),
        _ => Outcome::Fail(unexpected_reply()),
    })
}

/// The text of the file at `path` (reply `k`).
pub open spec fn run_read(rs: Seq<ReplyV>, k: int, path: Seq<char>) -> Outcome<Seq<char>> {
    then(io_reply(rs, k, RequestV::ReadFile(path)), |r: ReplyV| match r {
        ReplyV::Text(t) => Outcome::Done(t),
        _ => Outcome::Fail(unexpected_reply()),
    })
}

/// A request answered by `Reply::Done` (a write or a removal), reply `k`.
pub open spec fn run_effect(rs: Seq<ReplyV>, k: int, req: RequestV) -> Outcome<()> {
    then(io_reply(rs, k, req), |r: ReplyV| match r {
        ReplyV::Done => Outcome::Done(()),
        _ => Outcome::Fail(unexpected_reply()),
    })
}

/// The id of the running process (reply `k`).
pub open spec fn run_pid(rs: Seq<ReplyV>, k: int) -> Outcome<u64> {
    then(io_reply(rs, k, RequestV::ProcessId), |r: ReplyV| match r {
        ReplyV::Size(n) => Outcome::Done(n),
        _ => Outcome::Fail(unexpected_reply()),
    })
}

/// `Path::join` (Unix paths): an absolute `p` replaces `dir`.
pub open spec fn path_join(dir: Seq<char>, p: Seq<char>) -> Seq<char> {
    if p.len() > 0 && p[0] == '/' {
        p
    } else {
        join_path(dir, p)
    }
}

/// `Path::join` of a relative path.
pub open spec fn join_path(dir: Seq<char>, name: Seq<char>) -> Seq<char> {
    crate::rebase::join_path(dir, name)
}

// ───────────────────────── exec plumbing ─────────────────────────

/// How far an operation got with one request.
pub enum Flow<T> {
    /// The reply has not come yet: ask for this.
    Ask(Request),
    Fail(Error),
    Got(T),
}

pub open spec fn flow_view<T, A>(f: Flow<T>, g: spec_fn(T) -> A) -> Outcome<A> {
    match f {
        Flow::Ask(q) => Outcome::Ask(q.view()),
        Flow::Fail(e) => Outcome::Fail(e.view()),
        Flow::Got(t) => Outcome::Done(g(t)),
    }
}

/// A `String` with the characters of `s`.
pub fn s(x: &str) -> (r: String)
    ensures
        r@ == x@,
{
    crate::text::string_of(&crate::text::chars_of(x))
}

pub fn copy_string(x: &String) -> (r: String)
    ensures
        r@ == x@,
{
    x.clone()
}

/// `dir` joined with the relative path `name`.
pub fn join(dir: &String, name: &str) -> (r: String)
    ensures
        r@ == join_path(dir@, name@),
{
    let d = crate::text::chars_of(dir.as_str());
    let n = crate::text::chars_of(name);
    let mut r = crate::text::slice_vec(&d, 0, d.len());
    assert(r@ =~= d@);
    if d.len() > 0 && d[d.len() - 1] != '/' {
        r.push('/');
    }
    crate::text::push_chars(&mut r, &n);
    proof {
        if d@.len() > 0 && d@.last() != '/' {
            assert(r@ =~= d@ + seq!['/'] + n@);
        } else if d@.len() == 0 {
            assert(r@ =~= n@);
        }
    }
    crate::text::string_of(&r)
}

pub fn copy_strings(args: &Vec<String>) -> (r: Vec<String>)
    ensures
        strs(r@) == strs(args@),
{
    let mut r: Vec<String> = Vec::new();
    let mut i: usize = 0;
    while i < args.len()
        invariant
            i <= args.len(),
            strs(r@) == strs(args@).take(i as int),
        decreases args.len() - i,
    {
        let ghost before = strs(r@);
        let x = args[i].clone();
        r.push(x);
        assert(strs(r@) =~= before.push(args@[i as int]@));
        assert(strs(args@).take(i + 1) =~= strs(args@).take(i as int).push(args@[i as int]@));
        i = i + 1;
    }
    assert(strs(args@).take(args.len() as int) =~= strs(args@));
    r
}

/// Reply `k` to a git request.
pub fn git_flow(replies: &[Reply], k: usize, call: GitCall, must: bool) -> (r: Flow<GitOutput>)
    ensures
        flow_view(r, |o: GitOutput| o.view()) == git_reply(replies_view(replies@), k as int, RequestV::Git(call.view()), must),
        !(r is Ask) ==> k < replies.len(),
{
    if k >= replies.len() {
        return Flow::Ask(Request::Git(call));
    }
    assert(replies_view(replies@)[k as int] == replies@[k as int].view());
    match &replies[k] {
        Reply::Git(o) => {
            if must && !o.success {
                Flow::Fail(Error::Git { args: copy_strings(&call.args), code: o.code, stderr: o.stderr.clone() })
            } else {
                Flow::Got(GitOutput { success: o.success, code: o.code, stdout: o.stdout.clone(), stderr: o.stderr.clone() })
            }
        },
        Reply::Failed(m) => Flow::Fail(Error::Io(m.clone())),
        Reply::Cancelled => Flow::Fail(Error::Cancelled),
        _ => Flow::Fail(Error::Io(s("unexpected reply"))),
    }
}

/// Reply `k` to a non-git request.
pub fn io_flow(replies: &[Reply], k: usize, req: Request) -> (r: Flow<Reply>)
    ensures
        flow_view(r, |x: Reply| x.view()) == io_reply(replies_view(replies@), k as int, req.view()),
        !(r is Ask) ==> k < replies.len(),
{
    if k >= replies.len() {
        return Flow::Ask(req);
    }
    assert(replies_view(replies@)[k as int] == replies@[k as int].view());
    match &replies[k] {
        Reply::Failed(m) => Flow::Fail(Error::Io(m.clone())),
        Reply::Cancelled => Flow::Fail(Error::Cancelled),
        Reply::Git(o) => Flow::Got(Reply::Git(GitOutput { success: o.success, code: o.code, stdout: o.stdout.clone(), stderr: o.stderr.clone() })),
        Reply::Bool(b) => Flow::Got(Reply::Bool(*b)),
        Reply::Text(t) => Flow::Got(Reply::Text(t.clone())),
        Reply::Bytes(b) => Flow::Got(Reply::Bytes(copy_bytes(b))),
        Reply::Size(n) => Flow::Got(Reply::Size(*n)),
        Reply::Done => Flow::Got(Reply::Done),
    }
}

/// `dir.join(p)`: an absolute `p` replaces `dir`.
pub fn join_any(dir: &String, p: &str) -> (r: String)
    ensures
        r@ == path_join(dir@, p@),
{
    let c = crate::text::chars_of(p);
    if c.len() > 0 && c[0] == '/' {
        crate::text::string_of(&c)
    } else {
        join(dir, p)
    }
}

fn copy_bytes(b: &Vec<u8>) -> (r: Vec<u8>)
    ensures
        r@ == b@,
{
    let mut r: Vec<u8> = Vec::new();
    let mut i: usize = 0;
    while i < b.len()
        invariant
            i <= b.len(),
            r@ == b@.take(i as int),
        decreases b.len() - i,
    {
        r.push(b[i]);
        assert(b@.take(i + 1) =~= b@.take(i as int).push(b@[i as int]));
        i = i + 1;
    }
    assert(b@.take(b.len() as int) =~= b@);
    r
}

pub fn plain_call(dir: &String, args: Vec<String>) -> (c: GitCall)
    ensures
        c.view() == (GitCallV { dir: dir@, args: strs(args@), env: Seq::empty(), stdin: None, streaming: false }),
{
    let c = GitCall { dir: dir.clone(), args, env: Vec::new(), stdin: None, streaming: false };
    assert(c.view().env =~= Seq::<(Seq<char>, Seq<char>)>::empty());
    c
}

/// `git <args>` in `dir`, which must succeed: its stdout.
pub fn git_in(dir: &String, replies: &[Reply], k: usize, args: Vec<String>) -> (r: Flow<String>)
    ensures
        flow_view(r, |t: String| t@) == run_git(replies_view(replies@), k as int, dir@, strs(args@)),
        !(r is Ask) ==> k < replies.len(),
{
    let call = plain_call(dir, args);
    match git_flow(replies, k, call, true) {
        Flow::Ask(q) => Flow::Ask(q),
        Flow::Fail(e) => Flow::Fail(e),
        Flow::Got(o) => Flow::Got(o.stdout),
    }
}

/// `git <args>` in `dir`, its output whatever the exit status.
pub fn git_checked_in(dir: &String, replies: &[Reply], k: usize, args: Vec<String>) -> (r: Flow<GitOutput>)
    ensures
        flow_view(r, |o: GitOutput| o.view()) == run_checked(replies_view(replies@), k as int, dir@, strs(args@)),
        !(r is Ask) ==> k < replies.len(),
{
    let call = plain_call(dir, args);
    git_flow(replies, k, call, false)
}

/// Does `path` exist?
pub fn exists_flow(replies: &[Reply], k: usize, path: String) -> (r: Flow<bool>)
    ensures
        flow_view(r, |b: bool| b) == run_exists(replies_view(replies@), k as int, path@),
        !(r is Ask) ==> k < replies.len(),
{
    match io_flow(replies, k, Request::Exists(path)) {
        Flow::Ask(q) => Flow::Ask(q),
        Flow::Fail(e) => Flow::Fail(e),
        Flow::Got(Reply::Bool(b)) => Flow::Got(b),
        Flow::Got(_) => Flow::Fail(Error::Io(s("unexpected reply"))),
    }
}

/// Reads the text file at `path`.
pub fn read_flow(replies: &[Reply], k: usize, path: String) -> (r: Flow<String>)
    ensures
        flow_view(r, |t: String| t@) == run_read(replies_view(replies@), k as int, path@),
        !(r is Ask) ==> k < replies.len(),
{
    match io_flow(replies, k, Request::ReadFile(path)) {
        Flow::Ask(q) => Flow::Ask(q),
        Flow::Fail(e) => Flow::Fail(e),
        Flow::Got(Reply::Text(t)) => Flow::Got(t),
        Flow::Got(_) => Flow::Fail(Error::Io(s("unexpected reply"))),
    }
}

/// Performs a write or removal request.
pub fn effect_flow(replies: &[Reply], k: usize, req: Request) -> (r: Flow<()>)
    ensures
        flow_view(r, |u: ()| u) == run_effect(replies_view(replies@), k as int, req.view()),
        !(r is Ask) ==> k < replies.len(),
{
    match io_flow(replies, k, req) {
        Flow::Ask(q) => Flow::Ask(q),
        Flow::Fail(e) => Flow::Fail(e),
        Flow::Got(Reply::Done) => Flow::Got(()),
        Flow::Got(_) => Flow::Fail(Error::Io(s("unexpected reply"))),
    }
}

/// The id of the running process.
pub fn pid_flow(replies: &[Reply], k: usize) -> (r: Flow<u64>)
    ensures
        flow_view(r, |n: u64| n) == run_pid(replies_view(replies@), k as int),
        !(r is Ask) ==> k < replies.len(),
{
    match io_flow(replies, k, Request::ProcessId) {
        Flow::Ask(q) => Flow::Ask(q),
        Flow::Fail(e) => Flow::Fail(e),
        Flow::Got(Reply::Size(n)) => Flow::Got(n),
        Flow::Got(_) => Flow::Fail(Error::Io(s("unexpected reply"))),
    }
}

// ───────────────────────── the repository ─────────────────────────

/// A handle to a git working tree; every operation runs relative to it.
#[derive(Debug, Clone)]
pub struct Repo {
    workdir: String,
}

impl Repo {
    /// The working tree's path.
    pub closed spec fn dir(&self) -> Seq<char> {
        self.workdir@
    }

    /// A handle on `workdir`, not yet checked (see `open`).
    pub fn at(workdir: &str) -> (r: Repo)
        ensures
            r.dir() == workdir@,
    {
        Repo { workdir: s(workdir) }
    }

    /// The working tree's root directory.
    pub fn workdir(&self) -> (r: &String)
        ensures
            r@ == self.dir(),
    {
        &self.workdir
    }

    /// `git <args>` in the working tree, which must succeed.
    pub fn git(&self, replies: &[Reply], k: usize, args: Vec<String>) -> (r: Flow<String>)
        ensures
            flow_view(r, |t: String| t@) == run_git(replies_view(replies@), k as int, self.dir(), strs(args@)),
            !(r is Ask) ==> k < replies.len(),
    {
        git_in(&self.workdir, replies, k, args)
    }

    /// `git <args>` in the working tree, its output whatever the exit status.
    pub fn git_checked(&self, replies: &[Reply], k: usize, args: Vec<String>) -> (r: Flow<GitOutput>)
        ensures
            flow_view(r, |o: GitOutput| o.view()) == run_checked(replies_view(replies@), k as int, self.dir(), strs(args@)),
            !(r is Ask) ==> k < replies.len(),
    {
        git_checked_in(&self.workdir, replies, k, args)
    }
}

/// Opening checks that the directory is a git working tree (`git rev-parse --git-dir`).
pub open spec fn open_spec(dir: Seq<char>, rs: Seq<ReplyV>) -> Outcome<Seq<char>> {
    map_done(run_git(rs, 0, dir, seq!["rev-parse"@, "--git-dir"@]), |o: Seq<char>| dir)
}

impl Repo {
    /// Binds to an existing git working tree.
    pub fn open(workdir: &str, replies: &[Reply]) -> (r: Step<Repo>)
        ensures
            step_view(r, |x: Repo| x.dir()) == open_spec(workdir@, replies_view(replies@)),
    {
        let repo = Repo::at(workdir);
        let args = vec![s("rev-parse"), s("--git-dir")];
        assert(strs(args@) =~= seq!["rev-parse"@, "--git-dir"@]);
        match repo.git(replies, 0, args) {
            Flow::Ask(q) => Step::Ask(q),
            Flow::Fail(e) => Step::Done(Err(e)),
            Flow::Got(_) => Step::Done(Ok(repo)),
        }
    }
}

/// An operation that is one git command which must succeed, its output discarded.
pub open spec fn unit_spec(rs: Seq<ReplyV>, dir: Seq<char>, args: Seq<Seq<char>>) -> Outcome<()> {
    map_done(run_git(rs, 0, dir, args), |o: Seq<char>| ())
}

/// An operation that is one git command which must succeed, returning its stdout.
pub open spec fn text_spec(rs: Seq<ReplyV>, dir: Seq<char>, args: Seq<Seq<char>>) -> Outcome<Seq<char>> {
    run_git(rs, 0, dir, args)
}

impl Repo {
    /// Runs one git command that must succeed; its output is not needed.
    pub fn git_unit(&self, replies: &[Reply], args: Vec<String>) -> (r: Step<()>)
        ensures
            step_view(r, |u: ()| u) == unit_spec(replies_view(replies@), self.dir(), strs(args@)),
    {
        match self.git(replies, 0, args) {
            Flow::Ask(q) => Step::Ask(q),
            Flow::Fail(e) => Step::Done(Err(e)),
            Flow::Got(_) => Step::Done(Ok(())),
        }
    }

    /// Runs one git command that must succeed and returns its stdout.
    pub fn git_text(&self, replies: &[Reply], args: Vec<String>) -> (r: Step<String>)
        ensures
            step_view(r, |t: String| t@) == text_spec(replies_view(replies@), self.dir(), strs(args@)),
    {
        match self.git(replies, 0, args) {
            Flow::Ask(q) => Step::Ask(q),
            Flow::Fail(e) => Step::Done(Err(e)),
            Flow::Got(o) => Step::Done(Ok(o)),
        }
    }
}

pub open spec fn env_view(v: Seq<(String, String)>) -> Seq<(Seq<char>, Seq<char>)> {
    v.map_values(|p: (String, String)| (p.0@, p.1@))
}

impl Repo {
    /// `git <args>` with extra environment variables; must succeed: its stdout.
    pub fn git_env(&self, replies: &[Reply], k: usize, args: Vec<String>, env: Vec<(String, String)>) -> (r: Flow<String>)
        ensures
            flow_view(r, |t: String| t@) == map_done(
                git_reply(replies_view(replies@), k as int, git_req(self.dir(), strs(args@), env_view(env@), None, false), true),
                |o: GitOutV| o.stdout,
            ),
            !(r is Ask) ==> k < replies.len(),
    {
        let call = GitCall { dir: self.workdir.clone(), args, env, stdin: None, streaming: false };
        match git_flow(replies, k, call, true) {
            Flow::Ask(q) => Flow::Ask(q),
            Flow::Fail(e) => Flow::Fail(e),
            Flow::Got(o) => Flow::Got(o.stdout),
        }
    }

    /// `git <args>` fed `input` on stdin; must succeed: its stdout.
    pub fn git_stdin(&self, replies: &[Reply], k: usize, args: Vec<String>, input: String) -> (r: Flow<String>)
        ensures
            flow_view(r, |t: String| t@) == map_done(
                git_reply(replies_view(replies@), k as int, git_req(self.dir(), strs(args@), Seq::empty(), Some(input@), false), true),
                |o: GitOutV| o.stdout,
            ),
            !(r is Ask) ==> k < replies.len(),
    {
        let call = GitCall { dir: self.workdir.clone(), args, env: Vec::new(), stdin: Some(input), streaming: false };
        assert(call.view().env =~= Seq::<(Seq<char>, Seq<char>)>::empty());
        match git_flow(replies, k, call, true) {
            Flow::Ask(q) => Flow::Ask(q),
            Flow::Fail(e) => Flow::Fail(e),
            Flow::Got(o) => Flow::Got(o.stdout),
        }
    }

    /// A long `git <args>` run with progress and cancellation: its output whatever the status.
    pub fn git_streaming(&self, replies: &[Reply], k: usize, args: Vec<String>) -> (r: Flow<GitOutput>)
        ensures
            flow_view(r, |o: GitOutput| o.view()) == git_reply(replies_view(replies@), k as int, git_req(self.dir(), strs(args@), Seq::empty(), None, true), false),
            !(r is Ask) ==> k < replies.len(),
    {
        let call = GitCall { dir: self.workdir.clone(), args, env: Vec::new(), stdin: None, streaming: true };
        assert(call.view().env =~= Seq::<(Seq<char>, Seq<char>)>::empty());
        git_flow(replies, k, call, false)
    }
}

/// Appends copies of `xs` to `args`.
pub fn push_all(args: &mut Vec<String>, xs: &[String])
    ensures
        strs(final(args)@) == strs(old(args)@) + strs(xs@),
{
    let mut i: usize = 0;
    assert(strs(args@) =~= strs(old(args)@) + strs(xs@).take(0));
    while i < xs.len()
        invariant
            i <= xs.len(),
            strs(args@) == strs(old(args)@) + strs(xs@).take(i as int),
        decreases xs.len() - i,
    {
        let ghost before = strs(args@);
        let x = xs[i].clone();
        args.push(x);
        assert(strs(args@) =~= before.push(xs@[i as int]@));
        assert(strs(xs@).take(i + 1) =~= strs(xs@).take(i as int).push(xs@[i as int]@));
        i = i + 1;
    }
    assert(strs(xs@).take(xs.len() as int) =~= strs(xs@));
}

} // verus!
