//! Submodules, and the status of a working tree (which lists its submodules, whose own
//! state is read from their status in turn).
use vstd::prelude::*;
use crate::text::{lines, trim, ws_tokens, views};
use crate::error::{Error, ErrorV};
use crate::repo::{Repo, Reply, Request, Step, Flow, Outcome, RequestV, ReplyV, step_view, flow_view, map_done, run_git, run_exists, replies_view, strs, s, join_path, path_join, git_req, unexpected_reply, unit_spec};
use crate::status::{FileState, FileStatus, RepoStatus, V2State, parse_v2_spec, files_view, opt_view};

verus! {

/// A submodule.
#[derive(Debug, Clone)]
pub struct Submodule {
    /// Its name (its path, such as `vendor/dep`).
    pub name: String,
    /// Its path relative to the parent's working tree.
    pub path: String,
    pub status: SubmoduleStatus,
}

/// The state of a submodule.
#[derive(Debug, Clone, Copy, PartialEq, Eq, Structural)]
pub enum SubmoduleStatus {
    /// No changes.
    Clean,
    /// Uncommitted changes.
    Dirty,
    /// Detached HEAD.
    Detached,
    /// Not initialised (no `.git`).
    Uninitialized,
}

pub struct SubmoduleV {
    pub name: Seq<char>,
    pub path: Seq<char>,
    pub status: SubmoduleStatus,
}

pub open spec fn subs_view(v: Seq<Submodule>) -> Seq<SubmoduleV> {
    v.map_values(|m: Submodule| SubmoduleV { name: m.name@, path: m.path@, status: m.status })
}

/// A working tree's status.
pub struct StatusV {
    pub branch: Option<Seq<char>>,
    pub upstream: Option<Seq<char>>,
    pub behind: u32,
    pub ahead: u32,
    pub dirty: bool,
    pub conflicted: Seq<Seq<char>>,
    pub files: Seq<(Seq<char>, FileState)>,
    pub submodules: Seq<SubmoduleV>,
}

impl RepoStatus {
    pub open spec fn view(&self) -> StatusV {
        StatusV {
            branch: opt_view(self.branch),
            upstream: opt_view(self.upstream),
            behind: self.behind,
            ahead: self.ahead,
            dirty: self.dirty,
            conflicted: strs(self.conflicted@),
            files: files_view(self.files@),
            submodules: subs_view(self.submodules@),
        }
    }
}

/// The status from the porcelain output's parse and the submodules; dirty means any change
/// entry: a changed, renamed, unmerged or untracked path (ignored paths do not count).
pub open spec fn status_of(p: V2State, subs: Seq<SubmoduleV>) -> StatusV {
    StatusV {
        branch: p.branch,
        upstream: p.upstream,
        behind: p.behind,
        ahead: p.ahead,
        dirty: p.changed,
        conflicted: p.conflicted,
        files: p.files,
        submodules: subs,
    }
}

pub open spec fn status_args() -> Seq<Seq<char>> {
    seq!["-c"@, "core.quotepath=false"@, "status"@, "--porcelain=v2"@, "--branch"@, "--untracked-files=all"@, "-z"@]
}

pub open spec fn sub_status_args() -> Seq<Seq<char>> {
    seq!["submodule"@, "status"@]
}

/// The status of the working tree at `dir` (from reply `k`): one `status --porcelain=v2`,
/// then its submodules; a failure to list the submodules leaves them out. Errors are
/// returned as values with the index of the reply after them.
pub open spec fn status_at(rs: Seq<ReplyV>, k: int, dir: Seq<char>) -> Outcome<(Result<StatusV, ErrorV>, int)>
    decreases rs.len() - k, 0int,
{
    if k < 0 || k >= rs.len() {
        Outcome::Ask(git_req(dir, status_args(), Seq::empty(), None, false))
    } else {
        match run_git(rs, k, dir, status_args()) {
            Outcome::Ask(q) => Outcome::Ask(q),
            Outcome::Fail(e) => Outcome::Done((Err(e), k + 1)),
            Outcome::Done(out) => match list_subs_at(rs, k + 1, dir) {
                Outcome::Ask(q) => Outcome::Ask(q),
                Outcome::Fail(e) => Outcome::Done((Err(e), k + 1)),
                Outcome::Done((Ok(subs), k2)) => Outcome::Done((Ok(status_of(parse_v2_spec(out), subs)), k2)),
                Outcome::Done((Err(_), k2)) => Outcome::Done((Ok(status_of(parse_v2_spec(out), Seq::empty())), k2)),
            },
        }
    }
}

/// The submodules of the working tree at `dir` (from reply `k`): none without a
/// `.gitmodules`; else those of `git submodule status`.
pub open spec fn list_subs_at(rs: Seq<ReplyV>, k: int, dir: Seq<char>) -> Outcome<(Result<Seq<SubmoduleV>, ErrorV>, int)>
    decreases rs.len() - k, 0int,
{
    if k < 0 || k >= rs.len() {
        Outcome::Ask(RequestV::Exists(join_path(dir, ".gitmodules"@)))
    } else {
        match run_exists(rs, k, join_path(dir, ".gitmodules"@)) {
            Outcome::Ask(q) => Outcome::Ask(q),
            Outcome::Fail(e) => Outcome::Done((Err(e), k + 1)),
            Outcome::Done(false) => Outcome::Done((Ok(Seq::empty()), k + 1)),
            Outcome::Done(true) => if k + 1 >= rs.len() {
                Outcome::Ask(git_req(dir, sub_status_args(), Seq::empty(), None, false))
            } else {
                match run_git(rs, k + 1, dir, sub_status_args()) {
                    Outcome::Ask(q) => Outcome::Ask(q),
                    Outcome::Fail(e) => Outcome::Done((Err(e), k + 2)),
                    Outcome::Done(out) => subs_from(rs, k + 2, dir, lines(out), 0),
                }
            },
        }
    }
}

/// The submodule lines `ls[i..]` of `git submodule status` (`<c><sha> <path> ...`, where
/// `-` marks an uninitialised one), from reply `k`. Blank lines and lines with fewer than
/// two fields after the status character are skipped.
pub open spec fn subs_from(rs: Seq<ReplyV>, k: int, dir: Seq<char>, ls: Seq<Seq<char>>, i: int) -> Outcome<(Result<Seq<SubmoduleV>, ErrorV>, int)>
    decreases rs.len() - k, ls.len() - i,
{
    if i < 0 || i >= ls.len() || k < 0 || k > rs.len() {
        Outcome::Done((Ok(Seq::empty()), k))
    } else {
        let line = ls[i];
        let parts = ws_tokens(line.skip(1));
        if trim(line).len() == 0 || parts.len() < 2 {
            subs_from(rs, k, dir, ls, i + 1)
        } else {
            let path = parts[1];
            if line[0] == '-' {
                prepend_sub(SubmoduleV { name: path, path, status: SubmoduleStatus::Uninitialized }, subs_from(rs, k, dir, ls, i + 1))
            } else {
                match check_at(rs, k, dir, path) {
                    Outcome::Ask(q) => Outcome::Ask(q),
                    Outcome::Fail(e) => Outcome::Done((Err(e), k)),
                    Outcome::Done((Err(e), k2)) => Outcome::Done((Err(e), k2)),
                    Outcome::Done((Ok(st), k2)) => if k2 <= k || k2 > rs.len() {
                        Outcome::Done((Err(unexpected_reply()), k2))
                    } else {
                        prepend_sub(SubmoduleV { name: path, path, status: st }, subs_from(rs, k2, dir, ls, i + 1))
                    },
                }
            }
        }
    }
}

pub open spec fn prepend_sub(x: SubmoduleV, o: Outcome<(Result<Seq<SubmoduleV>, ErrorV>, int)>) -> Outcome<(Result<Seq<SubmoduleV>, ErrorV>, int)> {
    match o {
        Outcome::Done((Ok(rest), k)) => Outcome::Done((Ok(seq![x] + rest), k)),
        other => other,
    }
}

/// The state of the submodule at `path` (from reply `k`): uninitialised without `.git`;
/// else, from its own status, dirty, detached or clean.
pub open spec fn check_at(rs: Seq<ReplyV>, k: int, dir: Seq<char>, path: Seq<char>) -> Outcome<(Result<SubmoduleStatus, ErrorV>, int)>
    decreases rs.len() - k, 0int,
{
    let full = path_join(dir, path);
    if k < 0 || k >= rs.len() {
        Outcome::Ask(RequestV::Exists(join_path(full, ".git"@)))
    } else {
        match run_exists(rs, k, join_path(full, ".git"@)) {
            Outcome::Ask(q) => Outcome::Ask(q),
            Outcome::Fail(e) => Outcome::Done((Err(e), k + 1)),
            Outcome::Done(false) => Outcome::Done((Ok(SubmoduleStatus::Uninitialized), k + 1)),
            Outcome::Done(true) => if k + 1 >= rs.len() {
                Outcome::Ask(git_req(full, crate::update::git_dir_args(), Seq::empty(), None, false))
            } else {
                match run_git(rs, k + 1, full, crate::update::git_dir_args()) {
                    Outcome::Ask(q) => Outcome::Ask(q),
                    Outcome::Fail(e) => Outcome::Done((Err(e), k + 2)),
                    Outcome::Done(_) => match status_at(rs, k + 2, full) {
                        Outcome::Ask(q) => Outcome::Ask(q),
                        Outcome::Fail(e) => Outcome::Done((Err(e), k + 2)),
                        Outcome::Done((Err(e), k3)) => Outcome::Done((Err(e), k3)),
                        Outcome::Done((Ok(st), k3)) => Outcome::Done((Ok(
                            if st.dirty {
                                SubmoduleStatus::Dirty
                            } else if st.branch is None {
                                SubmoduleStatus::Detached
                            } else {
                                SubmoduleStatus::Clean
                            },
                        ), k3)),
                    },
                }
            },
        }
    }
}

/// A caught outcome as an ordinary one.
pub open spec fn uncaught<A>(o: Outcome<(Result<A, ErrorV>, int)>) -> Outcome<A> {
    match o {
        Outcome::Ask(q) => Outcome::Ask(q),
        Outcome::Fail(e) => Outcome::Fail(e),
        Outcome::Done((Ok(a), _)) => Outcome::Done(a),
        Outcome::Done((Err(e), _)) => Outcome::Fail(e),
    }
}

pub open spec fn res_status(r: Result<RepoStatus, Error>) -> Result<StatusV, ErrorV> {
    match r {
        Ok(s) => Ok(s.view()),
        Err(e) => Err(e.view()),
    }
}

pub open spec fn res_subs(r: Result<Vec<Submodule>, Error>) -> Result<Seq<SubmoduleV>, ErrorV> {
    match r {
        Ok(v) => Ok(subs_view(v@)),
        Err(e) => Err(e.view()),
    }
}

pub open spec fn res_sub_status(r: Result<SubmoduleStatus, Error>) -> Result<SubmoduleStatus, ErrorV> {
    match r {
        Ok(s) => Ok(s),
        Err(e) => Err(e.view()),
    }
}

impl Repo {
    /// The status of this working tree, from reply `k`, its errors caught.
    pub fn status_from(&self, replies: &[Reply], k: usize) -> (r: Flow<(Result<RepoStatus, Error>, usize)>)
        ensures
            flow_view(r, |p: (Result<RepoStatus, Error>, usize)| (res_status(p.0), p.1 as int)) == status_at(replies_view(replies@), k as int, self.dir()),
            !(r is Fail),
        decreases replies.len() - k, 0int,
    {
        let args = vec![s("-c"), s("core.quotepath=false"), s("status"), s("--porcelain=v2"), s("--branch"), s("--untracked-files=all"), s("-z")];
        assert(strs(args@) =~= status_args());
        if k >= replies.len() {
            let call = crate::repo::plain_call(self.workdir(), args);
            return Flow::Ask(Request::Git(call));
        }
        let out = match self.git(replies, k, args) {
            Flow::Ask(q) => {
                return Flow::Ask(q);
            },
            Flow::Fail(e) => {
                return Flow::Got((Err(e), k + 1));
            },
            Flow::Got(o) => o,
        };
        let p = crate::status::parse_v2(out.as_str());
        match self.list_subs_from(replies, k + 1) {
            Flow::Ask(q) => Flow::Ask(q),
            Flow::Fail(e) => Flow::Got((Err(e), k + 1)),
            Flow::Got((res, k2)) => {
                let subs = match res {
                    Ok(v) => v,
                    Err(_) => {
                        let v: Vec<Submodule> = Vec::new();
                        assert(subs_view(v@) =~= Seq::<SubmoduleV>::empty());
                        v
                    },
                };
                let st = RepoStatus {
                    branch: p.branch,
                    upstream: p.upstream,
                    behind: p.behind,
                    ahead: p.ahead,
                    dirty: p.changed,
                    conflicted: p.conflicted,
                    files: p.files,
                    submodules: subs,
                };
                Flow::Got((Ok(st), k2))
            },
        }
    }

    /// The submodules of this working tree, from reply `k`, its errors caught.
    pub fn list_subs_from(&self, replies: &[Reply], k: usize) -> (r: Flow<(Result<Vec<Submodule>, Error>, usize)>)
        ensures
            flow_view(r, |p: (Result<Vec<Submodule>, Error>, usize)| (res_subs(p.0), p.1 as int)) == list_subs_at(replies_view(replies@), k as int, self.dir()),
            !(r is Fail),
        decreases replies.len() - k, 0int,
    {
        let gm = crate::repo::join(self.workdir(), ".gitmodules");
        if k >= replies.len() {
            return Flow::Ask(Request::Exists(gm));
        }
        match crate::repo::exists_flow(replies, k, gm) {
            Flow::Ask(q) => {
                return Flow::Ask(q);
            },
            Flow::Fail(e) => {
                return Flow::Got((Err(e), k + 1));
            },
            Flow::Got(false) => {
                let v: Vec<Submodule> = Vec::new();
                assert(subs_view(v@) =~= Seq::<SubmoduleV>::empty());
                return Flow::Got((Ok(v), k + 1));
            },
            Flow::Got(true) => {},
        }
        let args = vec![s("submodule"), s("status")];
        assert(strs(args@) =~= sub_status_args());
        if k + 1 >= replies.len() {
            let call = crate::repo::plain_call(self.workdir(), args);
            return Flow::Ask(Request::Git(call));
        }
        let out = match self.git(replies, k + 1, args) {
            Flow::Ask(q) => {
                return Flow::Ask(q);
            },
            Flow::Fail(e) => {
                return Flow::Got((Err(e), k + 2));
            },
            Flow::Got(o) => o,
        };
        let ls = crate::text::lines_of(&crate::text::chars_of(out.as_str()));
        proof {
            assert(views(ls@) == lines(out@));
        }
        self.subs_from(replies, k + 2, &ls, 0)
    }

    fn subs_from(&self, replies: &[Reply], k: usize, ls: &Vec<Vec<char>>, i: usize) -> (r: Flow<(Result<Vec<Submodule>, Error>, usize)>)
        requires
            i <= ls.len(),
            k <= replies.len(),
        ensures
            flow_view(r, |p: (Result<Vec<Submodule>, Error>, usize)| (res_subs(p.0), p.1 as int)) == subs_from(replies_view(replies@), k as int, self.dir(), views(ls@), i as int),
            !(r is Fail),
        decreases replies.len() - k, ls.len() - i,
    {
        let ghost lv = views(ls@);
        if i >= ls.len() {
            let v: Vec<Submodule> = Vec::new();
            assert(subs_view(v@) =~= Seq::<SubmoduleV>::empty());
            return Flow::Got((Ok(v), k));
        }
        let line = &ls[i];
        assert(lv[i as int] == line@);
        if line.len() == 0 {
            assert(trim(line@).len() == 0);
            return self.subs_from(replies, k, ls, i + 1);
        }
        let rest = crate::text::slice_vec(line, 1, line.len());
        assert(rest@ =~= line@.skip(1));
        let parts = crate::text::split_ws(&rest);
        let t = crate::text::trim_vec(line);
        if t.len() == 0 || parts.len() < 2 {
            return self.subs_from(replies, k, ls, i + 1);
        }
        assert(views(parts@)[1] == parts@[1]@);
        let path = crate::text::string_of(&parts[1]);
        let (status, k2) = if line[0] == '-' {
            (SubmoduleStatus::Uninitialized, k)
        } else {
            match self.check_from(replies, k, path.as_str()) {
                Flow::Ask(q) => {
                    return Flow::Ask(q);
                },
                Flow::Fail(e) => {
                    return Flow::Got((Err(e), k));
                },
                Flow::Got((Err(e), k2)) => {
                    return Flow::Got((Err(e), k2));
                },
                Flow::Got((Ok(st), k2)) => {
                    if k2 <= k || k2 > replies.len() {
                        return Flow::Got((Err(Error::Io(s("unexpected reply"))), k2));
                    }
                    (st, k2)
                },
            }
        };
        let m = Submodule { name: path.clone(), path, status };
        match self.subs_from(replies, k2, ls, i + 1) {
            Flow::Ask(q) => Flow::Ask(q),
            Flow::Fail(e) => Flow::Fail(e),
            Flow::Got((Err(e), k3)) => Flow::Got((Err(e), k3)),
            Flow::Got((Ok(rest), k3)) => {
                let mut v: Vec<Submodule> = Vec::new();
                v.push(m);
                let mut rest = rest;
                let ghost rv = subs_view(rest@);
                v.append(&mut rest);
                assert(subs_view(v@) =~= seq![SubmoduleV { name: m.name@, path: m.path@, status: m.status }] + rv);
                Flow::Got((Ok(v), k3))
            },
        }
    }

    fn check_from(&self, replies: &[Reply], k: usize, path: &str) -> (r: Flow<(Result<SubmoduleStatus, Error>, usize)>)
        ensures
            flow_view(r, |p: (Result<SubmoduleStatus, Error>, usize)| (res_sub_status(p.0), p.1 as int)) == check_at(replies_view(replies@), k as int, self.dir(), path@),
            !(r is Fail),
        decreases replies.len() - k, 0int,
    {
        let full = crate::repo::join_any(self.workdir(), path);
        let dotgit = crate::repo::join(&full, ".git");
        if k >= replies.len() {
            return Flow::Ask(Request::Exists(dotgit));
        }
        match crate::repo::exists_flow(replies, k, dotgit) {
            Flow::Ask(q) => {
                return Flow::Ask(q);
            },
            Flow::Fail(e) => {
                return Flow::Got((Err(e), k + 1));
            },
            Flow::Got(false) => {
                return Flow::Got((Ok(SubmoduleStatus::Uninitialized), k + 1));
            },
            Flow::Got(true) => {},
        }
        let sub = Repo::at(full.as_str());
        let args = vec![s("rev-parse"), s("--git-dir")];
        assert(strs(args@) =~= crate::update::git_dir_args());
        if k + 1 >= replies.len() {
            let call = crate::repo::plain_call(&full, args);
            return Flow::Ask(Request::Git(call));
        }
        match sub.git(replies, k + 1, args) {
            Flow::Ask(q) => {
                return Flow::Ask(q);
            },
            Flow::Fail(e) => {
                return Flow::Got((Err(e), k + 2));
            },
            Flow::Got(_) => {},
        }
        match sub.status_from(replies, k + 2) {
            Flow::Ask(q) => Flow::Ask(q),
            Flow::Fail(e) => Flow::Got((Err(e), k + 2)),
            Flow::Got((Err(e), k3)) => Flow::Got((Err(e), k3)),
            Flow::Got((Ok(st), k3)) => {
                let r = if st.dirty {
                    SubmoduleStatus::Dirty
                } else if st.branch.is_none() {
                    SubmoduleStatus::Detached
                } else {
                    SubmoduleStatus::Clean
                };
                Flow::Got((Ok(r), k3))
            },
        }
    }

    /// Reads the state of the working tree: branch, upstream, ahead/behind, dirty, conflicts,
    /// files and submodules (one porcelain v2 run; a failure to list the submodules leaves
    /// them out).
    pub fn status(&self, replies: &[Reply]) -> (r: Step<RepoStatus>)
        ensures
            step_view(r, |st: RepoStatus| st.view()) == uncaught(status_at(replies_view(replies@), 0, self.dir())),
    {
        match self.status_from(replies, 0) {
            Flow::Ask(q) => Step::Ask(q),
            Flow::Fail(e) => Step::Done(Err(e)),
            Flow::Got((Ok(st), _)) => Step::Done(Ok(st)),
            Flow::Got((Err(e), _)) => Step::Done(Err(e)),
        }
    }

    /// Lists the submodules.
    pub fn submodules(&self, replies: &[Reply]) -> (r: Step<Vec<Submodule>>)
        ensures
            step_view(r, |v: Vec<Submodule>| subs_view(v@)) == uncaught(list_subs_at(replies_view(replies@), 0, self.dir())),
    {
        match self.list_subs_from(replies, 0) {
            Flow::Ask(q) => Step::Ask(q),
            Flow::Fail(e) => Step::Done(Err(e)),
            Flow::Got((Ok(v), _)) => Step::Done(Ok(v)),
            Flow::Got((Err(e), _)) => Step::Done(Err(e)),
        }
    }

    /// Initialises a submodule and checks it out at the commit the parent records.
    pub fn submodule_update(&self, path: &str, replies: &[Reply]) -> (r: Step<()>)
        ensures
            step_view(r, |u: ()| u) == unit_spec(replies_view(replies@), self.dir(), seq!["submodule"@, "update"@, "--init"@, "--"@, path@]),
    {
        let args = vec![s("submodule"), s("update"), s("--init"), s("--"), s(path)];
        assert(strs(args@) =~= seq!["submodule"@, "update"@, "--init"@, "--"@, path@]);
        self.git_unit(replies, args)
    }

    /// Syncs a submodule's URL from `.gitmodules`.
    pub fn submodule_sync(&self, path: &str, replies: &[Reply]) -> (r: Step<()>)
        ensures
            step_view(r, |u: ()| u) == unit_spec(replies_view(replies@), self.dir(), seq!["submodule"@, "sync"@, "--"@, path@]),
    {
        let args = vec![s("submodule"), s("sync"), s("--"), s(path)];
        assert(strs(args@) =~= seq!["submodule"@, "sync"@, "--"@, path@]);
        self.git_unit(replies, args)
    }
}

} // verus!
