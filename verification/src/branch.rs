//! Branches: listing, creating, switching (also with an automatic stash), deleting.
//!
//! Switching to a branch or a commit is not checked for a dirty tree first: git decides.
//! When git refuses because local changes would be overwritten, the error becomes a
//! recognisable precondition, so that the front end can offer a checkout with an automatic
//! stash. Checking out a remote branch as a new local one refuses a dirty tree up front,
//! with that same precondition, before any branch is created.
use vstd::prelude::*;
use crate::text::{lines, trim, split_char, split_sep, index_of, views, starts_with, ends_with, contains, parse_unsigned};
use crate::error::{Error, ErrorV};
use crate::repo::{Repo, Reply, Step, Flow, Outcome, GitOutV, ReplyV, step_view, flow_view, map_done, then, run_git, run_checked, run_pid, replies_view, strs, s, unit_spec};
use crate::stash::{PopResult, PopV, StashRef, autostash_label_spec, autostash_push_at, autostash_pop_at, opt_label, porcelain_args};

verus! {

/// A branch.
#[derive(Debug, Clone)]
pub struct BranchInfo {
    pub name: String,
    /// The checked-out branch.
    pub is_current: bool,
    /// Its upstream (such as `origin/main`).
    pub upstream: Option<String>,
    /// Commits ahead of the upstream.
    pub ahead: u32,
    /// Commits behind the upstream.
    pub behind: u32,
    /// A remote-tracking branch (under `refs/remotes/`), not a local one.
    pub is_remote: bool,
}

pub struct BranchV {
    pub name: Seq<char>,
    pub is_current: bool,
    pub upstream: Option<Seq<char>>,
    pub ahead: u32,
    pub behind: u32,
    pub is_remote: bool,
}

pub open spec fn branches_view(v: Seq<BranchInfo>) -> Seq<BranchV> {
    v.map_values(|b: BranchInfo| BranchV {
        name: b.name@,
        is_current: b.is_current,
        upstream: crate::conflict::opt_view(b.upstream),
        ahead: b.ahead,
        behind: b.behind,
        is_remote: b.is_remote,
    })
}

// ───────────────────────── tracking counts ─────────────────────────

/// `s.parse::<u32>().unwrap_or(0)`.
pub open spec fn u32_or_zero(s: Seq<char>) -> u32 {
    match parse_unsigned(s, u32::MAX as nat) {
        Some(v) => v as u32,
        None => 0,
    }
}

/// Folding the pieces `ps[..n]` of an `%(upstream:track)` field.
pub open spec fn track_fold(ps: Seq<Seq<char>>, n: int) -> (u32, u32)
    decreases n,
{
    if n <= 0 {
        (0, 0)
    } else {
        let (a, b) = track_fold(ps, n - 1);
        let p = ps[n - 1];
        if starts_with(p, "ahead "@) {
            (u32_or_zero(p.skip(6)), b)
        } else if starts_with(p, "behind "@) {
            (a, u32_or_zero(p.skip(7)))
        } else {
            (a, b)
        }
    }
}

/// The (ahead, behind) counts of a track field such as `ahead 1, behind 3`.
pub open spec fn track_spec(track: Seq<char>) -> (u32, u32) {
    let ps = split_sep(track, ", "@);
    track_fold(ps, ps.len() as int)
}

fn u32_or_zero_exec(s: &[char]) -> (r: u32)
    ensures
        r == u32_or_zero(s@),
{
    match crate::text::parse_u32(s) {
        Some(v) => v,
        None => 0,
    }
}

/// Parses an `%(upstream:track)` field into (ahead, behind).
pub fn parse_track(track: &str) -> (r: (u32, u32))
    ensures
        r == track_spec(track@),
{
    proof {
        reveal_strlit(", ");
    }
    let ps = crate::text::split_sep_on(&crate::text::chars_of(track), ", ");
    let ghost pv = views(ps@);
    let mut ahead: u32 = 0;
    let mut behind: u32 = 0;
    let mut i: usize = 0;
    while i < ps.len()
        invariant
            i <= ps.len(),
            pv == views(ps@),
            pv == split_sep(track@, ", "@),
            (ahead, behind) == track_fold(pv, i as int),
        decreases ps.len() - i,
    {
        assert(pv[i as int] == ps@[i as int]@);
        match crate::text::strip_prefix_str(&ps[i], "ahead ") {
            Some(n) => {
                proof {
                    reveal_strlit("ahead ");
                }
                ahead = u32_or_zero_exec(&n);
            },
            None => {
                match crate::text::strip_prefix_str(&ps[i], "behind ") {
                    Some(n) => {
                        proof {
                            reveal_strlit("behind ");
                        }
                        behind = u32_or_zero_exec(&n);
                    },
                    None => {},
                }
            },
        }
        i = i + 1;
    }
    (ahead, behind)
}

// ───────────────────────── listing ─────────────────────────

pub open spec fn list_branch_args() -> Seq<Seq<char>> {
    seq!["for-each-ref"@, "--format=%(refname:short)%00%(upstream:short)%00%(upstream:track)%00%(HEAD)"@, "refs/heads/"@]
}

pub open spec fn branch_of_fields(p: Seq<Seq<char>>) -> BranchV {
    BranchV {
        name: p[0],
        is_current: p[3] == "*"@,
        upstream: if p[1].len() == 0 { None } else { Some(p[1]) },
        ahead: track_spec(p[2]).0,
        behind: track_spec(p[2]).1,
        is_remote: false,
    }
}

/// The local branches of the first `n` lines of the listing (blank lines and lines with
/// fewer than four fields are skipped).
pub open spec fn branch_scan(ls: Seq<Seq<char>>, n: int) -> Seq<BranchV>
    decreases n,
{
    if n <= 0 {
        Seq::empty()
    } else {
        let l = ls[n - 1];
        let p = split_char(l, '\0');
        branch_scan(ls, n - 1) + if trim(l).len() > 0 && p.len() >= 4 {
            seq![branch_of_fields(p)]
        } else {
            Seq::empty()
        }
    }
}

pub open spec fn parse_branches_spec(out: Seq<char>) -> Seq<BranchV> {
    let ls = lines(out);
    branch_scan(ls, ls.len() as int)
}

pub fn parse_branches(out: &str) -> (r: Vec<BranchInfo>)
    ensures
        branches_view(r@) == parse_branches_spec(out@),
{
    let ls = crate::text::lines_of(&crate::text::chars_of(out));
    let ghost lv = views(ls@);
    let mut r: Vec<BranchInfo> = Vec::new();
    let mut i: usize = 0;
    assert(branches_view(r@) =~= branch_scan(lv, 0));
    while i < ls.len()
        invariant
            i <= ls.len(),
            lv == views(ls@),
            lv == lines(out@),
            branches_view(r@) == branch_scan(lv, i as int),
        decreases ls.len() - i,
    {
        assert(lv[i as int] == ls@[i as int]@);
        let t = crate::text::trim_vec(&ls[i]);
        let p = crate::text::split_on(&ls[i], '\0');
        if t.len() > 0 && p.len() >= 4 {
            let ghost pv = views(p@);
            assert(pv[0] == p@[0]@ && pv[1] == p@[1]@ && pv[2] == p@[2]@ && pv[3] == p@[3]@);
            let track = crate::text::string_of(&p[2]);
            let (ahead, behind) = parse_track(track.as_str());
            let upstream = if p[1].len() == 0 { None } else { Some(crate::text::string_of(&p[1])) };
            let b = BranchInfo {
                name: crate::text::string_of(&p[0]),
                is_current: crate::text::eq_str(&p[3], "*"),
                upstream,
                ahead,
                behind,
                is_remote: false,
            };
            let ghost before = branches_view(r@);
            r.push(b);
            assert(branches_view(r@) =~= before.push(branch_of_fields(pv)));
        } else {
            assert(branch_scan(lv, i + 1) =~= branch_scan(lv, i as int));
        }
        i = i + 1;
    }
    r
}

pub open spec fn remote_branch_args() -> Seq<Seq<char>> {
    seq!["for-each-ref"@, "--format=%(refname:short)"@, "refs/remotes/"@]
}

pub open spec fn remote_branch(name: Seq<char>) -> BranchV {
    BranchV { name, is_current: false, upstream: None, ahead: 0, behind: 0, is_remote: true }
}

/// The remote-tracking branches of the first `n` lines, trimmed; symbolic refs such as
/// `origin/HEAD` are left out.
pub open spec fn remote_scan(ls: Seq<Seq<char>>, n: int) -> Seq<BranchV>
    decreases n,
{
    if n <= 0 {
        Seq::empty()
    } else {
        let name = trim(ls[n - 1]);
        remote_scan(ls, n - 1) + if name.len() == 0 || ends_with(name, "/HEAD"@) {
            Seq::empty()
        } else {
            seq![remote_branch(name)]
        }
    }
}

pub open spec fn parse_remote_branches_spec(out: Seq<char>) -> Seq<BranchV> {
    let ls = lines(out);
    remote_scan(ls, ls.len() as int)
}

pub fn parse_remote_branches(out: &str) -> (r: Vec<BranchInfo>)
    ensures
        branches_view(r@) == parse_remote_branches_spec(out@),
{
    let ls = crate::text::lines_of(&crate::text::chars_of(out));
    let ghost lv = views(ls@);
    let mut r: Vec<BranchInfo> = Vec::new();
    let mut i: usize = 0;
    assert(branches_view(r@) =~= remote_scan(lv, 0));
    while i < ls.len()
        invariant
            i <= ls.len(),
            lv == views(ls@),
            lv == lines(out@),
            branches_view(r@) == remote_scan(lv, i as int),
        decreases ls.len() - i,
    {
        assert(lv[i as int] == ls@[i as int]@);
        let name = crate::text::trim_vec(&ls[i]);
        if name.len() == 0 || crate::text::ends_with_str(&name, "/HEAD") {
            assert(remote_scan(lv, i + 1) =~= remote_scan(lv, i as int));
        } else {
            let b = BranchInfo {
                name: crate::text::string_of(&name),
                is_current: false,
                upstream: None,
                ahead: 0,
                behind: 0,
                is_remote: true,
            };
            let ghost before = branches_view(r@);
            r.push(b);
            assert(branches_view(r@) =~= before.push(remote_branch(name@)));
        }
        i = i + 1;
    }
    r
}

// ───────────────────────── checkout ─────────────────────────

/// The local name of a remote branch: without its first component (`origin/feat` gives
/// `feat`, `origin/feature/x` gives `feature/x`); `None` without `/` or with nothing after it.
pub open spec fn local_name_spec(rb: Seq<char>) -> Option<Seq<char>> {
    let i = index_of(rb, '/');
    if i >= rb.len() || rb.skip(i + 1).len() == 0 {
        None
    } else {
        Some(rb.skip(i + 1))
    }
}

pub fn local_name_from_remote(remote_branch: &str) -> (r: Option<String>)
    ensures
        crate::conflict::opt_view(r) == local_name_spec(remote_branch@),
{
    let c = crate::text::chars_of(remote_branch);
    let i = crate::text::find_char_from(&c, '/', 0);
    proof {
        crate::text::lemma_index_of_from_bounds(c@, '/', 0);
    }
    if i >= c.len() {
        return None;
    }
    let rest = crate::text::slice_vec(&c, i + 1, c.len());
    assert(rest@ =~= c@.skip(i + 1));
    if rest.len() == 0 {
        None
    } else {
        Some(crate::text::string_of(&rest))
    }
}

/// git refused a checkout because local changes would be overwritten (English or Chinese
/// messages).
pub open spec fn blocked_spec(stderr: Seq<char>) -> bool {
    contains(stderr, "would be overwritten"@) || contains(stderr, "将被检出"@) || contains(stderr, "commit your changes or stash"@)
        || contains(stderr, "提交或贮藏"@)
}

pub fn is_checkout_blocked_by_local_changes(stderr: &str) -> (r: bool)
    ensures
        r == blocked_spec(stderr@),
{
    let c = crate::text::chars_of(stderr);
    crate::text::contains_str(&c, "would be overwritten") || crate::text::contains_str(&c, "将被检出") || crate::text::contains_str(
        &c,
        "commit your changes or stash",
    ) || crate::text::contains_str(&c, "提交或贮藏")
}

pub open spec fn blocked_msg() -> Seq<char> {
    "工作区有未提交改动会被覆盖，请先提交或暂存"@
}

/// A checkout's outcome: success, a recognisable precondition when local changes block it,
/// any other error as it is.
pub open spec fn finish_checkout_spec<A>(o: Outcome<A>) -> Outcome<()> {
    match o {
        Outcome::Ask(q) => Outcome::Ask(q),
        Outcome::Done(_) => Outcome::Done(()),
        Outcome::Fail(ErrorV::Git(a, c, st)) => if blocked_spec(st) {
            Outcome::Fail(ErrorV::Precondition(blocked_msg()))
        } else {
            Outcome::Fail(ErrorV::Git(a, c, st))
        },
        Outcome::Fail(e) => Outcome::Fail(e),
    }
}

fn finish_checkout(f: Flow<String>) -> (r: Step<()>)
    ensures
        step_view(r, |u: ()| u) == finish_checkout_spec(flow_view(f, |t: String| t@)),
{
    match f {
        Flow::Ask(q) => Step::Ask(q),
        Flow::Got(_) => Step::Done(Ok(())),
        Flow::Fail(Error::Git { args, code, stderr }) => {
            if is_checkout_blocked_by_local_changes(stderr.as_str()) {
                Step::Done(Err(Error::precondition("工作区有未提交改动会被覆盖，请先提交或暂存")))
            } else {
                Step::Done(Err(Error::Git { args, code, stderr }))
            }
        },
        Flow::Fail(e) => Step::Done(Err(e)),
    }
}

pub open spec fn no_local_name_msg(rb: Seq<char>) -> Seq<char> {
    "无法从远程分支名 \""@ + rb + "\" 推断本地分支名"@
}

pub open spec fn local_exists_msg(l: Seq<char>) -> Seq<char> {
    "本地已存在分支 \""@ + l + "\"，请直接切换到它"@
}

/// Before checking out a remote branch (from reply `k`): the local name to create, refused
/// when it cannot be told or a local branch of that name exists.
pub open spec fn remote_target_at(rs: Seq<ReplyV>, k: int, dir: Seq<char>, rb: Seq<char>) -> Outcome<(Seq<char>, int)> {
    match local_name_spec(rb) {
        None => Outcome::Fail(ErrorV::Precondition(no_local_name_msg(rb))),
        Some(l) => then(run_checked(rs, k, dir, seq!["show-ref"@, "--verify"@, "--quiet"@, "refs/heads/"@ + l]), |o: GitOutV|
            if o.success {
                Outcome::Fail(ErrorV::Precondition(local_exists_msg(l)))
            } else {
                Outcome::Done((l, k + 1))
            }),
    }
}

pub open spec fn track_checkout_args(l: Seq<char>, rb: Seq<char>) -> Seq<Seq<char>> {
    seq!["checkout"@, "-b"@, l, "--track"@, rb]
}

/// Checking out a remote branch as a new local one: the local name (refused when missing
/// or taken), then `status --porcelain`, whose non-blank output (a dirty tree, untracked
/// files included) refuses the checkout; then `checkout -b <local> --track <remote>`.
pub open spec fn checkout_remote_spec(rs: Seq<ReplyV>, dir: Seq<char>, rb: Seq<char>) -> Outcome<()> {
    then(remote_target_at(rs, 0, dir, rb), |t: (Seq<char>, int)|
        then(run_git(rs, t.1, dir, porcelain_args()), |st: Seq<char>| if trim(st).len() > 0 {
            Outcome::Fail(ErrorV::Precondition(blocked_msg()))
        } else {
            finish_checkout_spec(run_git(rs, t.1 + 1, dir, track_checkout_args(t.0, rb)))
        }))
}

/// The result of a checkout with an automatic stash.
#[derive(Debug)]
pub enum SwitchOutcome {
    /// Switched (the tree was clean, or the stashed changes went back without conflict).
    Switched,
    /// Switched, but putting the changes back conflicted: they are in the working tree with
    /// conflict markers, and the stash is kept.
    StashConflict { files: Vec<String> },
}

pub enum SwitchV {
    Switched,
    StashConflict(Seq<Seq<char>>),
}

impl SwitchOutcome {
    pub open spec fn view(&self) -> SwitchV {
        match self {
            SwitchOutcome::Switched => SwitchV::Switched,
            SwitchOutcome::StashConflict { files } => SwitchV::StashConflict(strs(files@)),
        }
    }
}

/// A checkout with an automatic stash, from reply `k`: stash a dirty tree, check out, put
/// the changes back. When the checkout fails, the changes are put back in place (whatever
/// that gives) and the checkout's failure is returned.
pub open spec fn checkout_autostash_at(rs: Seq<ReplyV>, k: int, dir: Seq<char>, args: Seq<Seq<char>>) -> Outcome<SwitchV> {
    then(run_pid(rs, k), |pid: u64| {
        let label = autostash_label_spec(pid);
        then(autostash_push_at(rs, k + 1, dir, label), |p: (Option<Seq<char>>, int)|
            then(run_checked(rs, p.1, dir, args), |o: GitOutV|
                if !o.success {
                    match p.0 {
                        Some(l) => match autostash_pop_at(rs, p.1 + 1, dir, l) {
                            Outcome::Ask(q) => Outcome::Ask(q),
                            _ => Outcome::Fail(ErrorV::Git(args, o.code, o.stderr)),
                        },
                        None => Outcome::Fail(ErrorV::Git(args, o.code, o.stderr)),
                    }
                } else {
                    match p.0 {
                        None => Outcome::Done(SwitchV::Switched),
                        Some(l) => map_done(autostash_pop_at(rs, p.1 + 1, dir, l), |x: (PopV, int)| match x.0 {
                            PopV::Clean => SwitchV::Switched,
                            PopV::Conflict(files) => SwitchV::StashConflict(files),
                        }),
                    }
                }))
    })
}

pub open spec fn delete_branch_spec(rs: Seq<ReplyV>, dir: Seq<char>, name: Seq<char>) -> Outcome<()> {
    then(run_git(rs, 0, dir, seq!["rev-parse"@, "--abbrev-ref"@, "HEAD"@]), |cur: Seq<char>|
        if trim(cur) == name {
            Outcome::Fail(ErrorV::Precondition("不能删除当前分支"@))
        } else {
            map_done(run_git(rs, 1, dir, seq!["branch"@, "-d"@, name]), |o: Seq<char>| ())
        })
}

pub open spec fn create_branch_args(name: Seq<char>, start: Option<Seq<char>>) -> Seq<Seq<char>> {
    seq!["branch"@, name] + match start {
        Some(st) => seq![st],
        None => Seq::empty(),
    }
}

impl Repo {
    /// Lists the local branches.
    pub fn branches(&self, replies: &[Reply]) -> (r: Step<Vec<BranchInfo>>)
        ensures
            step_view(r, |v: Vec<BranchInfo>| branches_view(v@)) == map_done(run_git(replies_view(replies@), 0, self.dir(), list_branch_args()), |o: Seq<char>| parse_branches_spec(o)),
    {
        let args = vec![s("for-each-ref"), s("--format=%(refname:short)%00%(upstream:short)%00%(upstream:track)%00%(HEAD)"), s("refs/heads/")];
        assert(strs(args@) =~= list_branch_args());
        match self.git(replies, 0, args) {
            Flow::Ask(q) => Step::Ask(q),
            Flow::Fail(e) => Step::Done(Err(e)),
            Flow::Got(o) => Step::Done(Ok(parse_branches(o.as_str()))),
        }
    }

    /// Lists the remote-tracking branches, without symbolic refs such as `origin/HEAD`.
    pub fn remote_branches(&self, replies: &[Reply]) -> (r: Step<Vec<BranchInfo>>)
        ensures
            step_view(r, |v: Vec<BranchInfo>| branches_view(v@)) == map_done(run_git(replies_view(replies@), 0, self.dir(), remote_branch_args()), |o: Seq<char>| parse_remote_branches_spec(o)),
    {
        let args = vec![s("for-each-ref"), s("--format=%(refname:short)"), s("refs/remotes/")];
        assert(strs(args@) =~= remote_branch_args());
        match self.git(replies, 0, args) {
            Flow::Ask(q) => Step::Ask(q),
            Flow::Fail(e) => Step::Done(Err(e)),
            Flow::Got(o) => Step::Done(Ok(parse_remote_branches(o.as_str()))),
        }
    }

    /// Creates a branch without switching to it, at HEAD or at `start`.
    pub fn create_branch(&self, name: &str, start: Option<&str>, replies: &[Reply]) -> (r: Step<()>)
        ensures
            step_view(r, |u: ()| u) == unit_spec(replies_view(replies@), self.dir(), create_branch_args(name@, crate::stash::opt_str_ref(start))),
    {
        let mut args = vec![s("branch"), s(name)];
        match start {
            Some(st) => {
                args.push(s(st));
            },
            None => {},
        }
        assert(strs(args@) =~= create_branch_args(name@, crate::stash::opt_str_ref(start)));
        self.git_unit(replies, args)
    }

    /// Switches to a branch.
    pub fn switch_branch(&self, name: &str, replies: &[Reply]) -> (r: Step<()>)
        ensures
            step_view(r, |u: ()| u) == finish_checkout_spec(run_git(replies_view(replies@), 0, self.dir(), seq!["checkout"@, name@])),
    {
        let args = vec![s("checkout"), s(name)];
        assert(strs(args@) =~= seq!["checkout"@, name@]);
        finish_checkout(self.git(replies, 0, args))
    }

    /// Checks out a commit (detached HEAD).
    pub fn checkout_commit(&self, sha: &str, replies: &[Reply]) -> (r: Step<()>)
        ensures
            step_view(r, |u: ()| u) == finish_checkout_spec(run_git(replies_view(replies@), 0, self.dir(), seq!["checkout"@, sha@])),
    {
        let args = vec![s("checkout"), s(sha)];
        assert(strs(args@) =~= seq!["checkout"@, sha@]);
        finish_checkout(self.git(replies, 0, args))
    }

    fn remote_target(&self, replies: &[Reply], k: usize, remote_branch: &str) -> (r: Flow<(String, usize)>)
        ensures
            flow_view(r, |p: (String, usize)| (p.0@, p.1 as int)) == remote_target_at(replies_view(replies@), k as int, self.dir(), remote_branch@),
    {
        let local = match local_name_from_remote(remote_branch) {
            None => {
                let mut m = crate::text::chars_of("无法从远程分支名 \"");
                crate::text::push_str(&mut m, remote_branch);
                crate::text::push_str(&mut m, "\" 推断本地分支名");
                return Flow::Fail(Error::Precondition(crate::text::string_of(&m)));
            },
            Some(l) => l,
        };
        let mut rf = crate::text::chars_of("refs/heads/");
        crate::text::push_str(&mut rf, local.as_str());
        let args = vec![s("show-ref"), s("--verify"), s("--quiet"), crate::text::string_of(&rf)];
        assert(strs(args@) =~= seq!["show-ref"@, "--verify"@, "--quiet"@, "refs/heads/"@ + local@]);
        match self.git_checked(replies, k, args) {
            Flow::Ask(q) => Flow::Ask(q),
            Flow::Fail(e) => Flow::Fail(e),
            Flow::Got(o) => {
                if o.success {
                    let mut m = crate::text::chars_of("本地已存在分支 \"");
                    crate::text::push_str(&mut m, local.as_str());
                    crate::text::push_str(&mut m, "\"，请直接切换到它");
                    Flow::Fail(Error::Precondition(crate::text::string_of(&m)))
                } else {
                    Flow::Got((local, k + 1))
                }
            },
        }
    }

    /// Checks out a remote branch as a new local branch tracking it; refused when a local
    /// branch of that name exists, and when the working tree is dirty.
    pub fn checkout_remote(&self, remote_branch: &str, replies: &[Reply]) -> (r: Step<()>)
        ensures
            step_view(r, |u: ()| u) == checkout_remote_spec(replies_view(replies@), self.dir(), remote_branch@),
    {
        let (local, k) = match self.remote_target(replies, 0, remote_branch) {
            Flow::Ask(q) => {
                return Step::Ask(q);
            },
            Flow::Fail(e) => {
                return Step::Done(Err(e));
            },
            Flow::Got(p) => p,
        };
        let st_args = vec![s("status"), s("--porcelain")];
        assert(strs(st_args@) =~= porcelain_args());
        match self.git(replies, k, st_args) {
            Flow::Ask(q) => {
                return Step::Ask(q);
            },
            Flow::Fail(e) => {
                return Step::Done(Err(e));
            },
            Flow::Got(o) => {
                if crate::text::trim_vec(&crate::text::chars_of(o.as_str())).len() > 0 {
                    return Step::Done(Err(Error::precondition("工作区有未提交改动会被覆盖，请先提交或暂存")));
                }
            },
        }
        let args = vec![s("checkout"), s("-b"), local, s("--track"), s(remote_branch)];
        assert(strs(args@) =~= track_checkout_args(args@[2]@, remote_branch@));
        finish_checkout(self.git(replies, k + 1, args))
    }

    /// A checkout with an automatic stash, from reply `k`.
    fn checkout_autostash(&self, replies: &[Reply], k: usize, args: Vec<String>) -> (r: Step<SwitchOutcome>)
        ensures
            step_view(r, |o: SwitchOutcome| o.view()) == checkout_autostash_at(replies_view(replies@), k as int, self.dir(), strs(args@)),
    {
        let pid = match crate::repo::pid_flow(replies, k) {
            Flow::Ask(q) => {
                return Step::Ask(q);
            },
            Flow::Fail(e) => {
                return Step::Done(Err(e));
            },
            Flow::Got(n) => n,
        };
        let label = crate::stash::autostash_label(pid);
        let (stash, k2) = match self.autostash_push(replies, k + 1, &label) {
            Flow::Ask(q) => {
                return Step::Ask(q);
            },
            Flow::Fail(e) => {
                return Step::Done(Err(e));
            },
            Flow::Got(p) => p,
        };
        let ghost av = strs(args@);
        let keep = crate::repo::copy_strings(&args);
        let out = match self.git_checked(replies, k2, args) {
            Flow::Ask(q) => {
                return Step::Ask(q);
            },
            Flow::Fail(e) => {
                return Step::Done(Err(e));
            },
            Flow::Got(o) => o,
        };
        if !out.success {
            match &stash {
                Some(st) => {
                    match self.autostash_pop(replies, k2 + 1, st) {
                        Flow::Ask(q) => {
                            return Step::Ask(q);
                        },
                        _ => {},
                    }
                },
                None => {},
            }
            return Step::Done(Err(Error::Git { args: keep, code: out.code, stderr: out.stderr }));
        }
        match stash {
            None => Step::Done(Ok(SwitchOutcome::Switched)),
            Some(st) => match self.autostash_pop(replies, k2 + 1, &st) {
                Flow::Ask(q) => Step::Ask(q),
                Flow::Fail(e) => Step::Done(Err(e)),
                Flow::Got((PopResult::Clean, _)) => Step::Done(Ok(SwitchOutcome::Switched)),
                Flow::Got((PopResult::Conflict(files), _)) => Step::Done(Ok(SwitchOutcome::StashConflict { files })),
            },
        }
    }

    /// Switches branch with an automatic stash of a dirty tree (smart checkout).
    pub fn switch_branch_autostash(&self, name: &str, replies: &[Reply]) -> (r: Step<SwitchOutcome>)
        ensures
            step_view(r, |o: SwitchOutcome| o.view()) == checkout_autostash_at(replies_view(replies@), 0, self.dir(), seq!["checkout"@, name@]),
    {
        let args = vec![s("checkout"), s(name)];
        assert(strs(args@) =~= seq!["checkout"@, name@]);
        self.checkout_autostash(replies, 0, args)
    }

    /// Checks out a commit with an automatic stash of a dirty tree.
    pub fn checkout_commit_autostash(&self, sha: &str, replies: &[Reply]) -> (r: Step<SwitchOutcome>)
        ensures
            step_view(r, |o: SwitchOutcome| o.view()) == checkout_autostash_at(replies_view(replies@), 0, self.dir(), seq!["checkout"@, sha@]),
    {
        let args = vec![s("checkout"), s(sha)];
        assert(strs(args@) =~= seq!["checkout"@, sha@]);
        self.checkout_autostash(replies, 0, args)
    }

    /// Checks out a remote branch as a new tracking branch, with an automatic stash.
    pub fn checkout_remote_autostash(&self, remote_branch: &str, replies: &[Reply]) -> (r: Step<SwitchOutcome>)
        ensures
            step_view(r, |o: SwitchOutcome| o.view()) == then(remote_target_at(replies_view(replies@), 0, self.dir(), remote_branch@), |t: (Seq<char>, int)|
                checkout_autostash_at(replies_view(replies@), t.1, self.dir(), track_checkout_args(t.0, remote_branch@))),
    {
        let (local, k) = match self.remote_target(replies, 0, remote_branch) {
            Flow::Ask(q) => {
                return Step::Ask(q);
            },
            Flow::Fail(e) => {
                return Step::Done(Err(e));
            },
            Flow::Got(p) => p,
        };
        let args = vec![s("checkout"), s("-b"), local, s("--track"), s(remote_branch)];
        assert(strs(args@) =~= track_checkout_args(args@[2]@, remote_branch@));
        self.checkout_autostash(replies, k, args)
    }

    /// Deletes a branch (safe mode: git refuses an unmerged one); the current branch is refused.
    pub fn delete_branch(&self, name: &str, replies: &[Reply]) -> (r: Step<()>)
        ensures
            step_view(r, |u: ()| u) == delete_branch_spec(replies_view(replies@), self.dir(), name@),
    {
        let args = vec![s("rev-parse"), s("--abbrev-ref"), s("HEAD")];
        assert(strs(args@) =~= seq!["rev-parse"@, "--abbrev-ref"@, "HEAD"@]);
        let cur = match self.git(replies, 0, args) {
            Flow::Ask(q) => {
                return Step::Ask(q);
            },
            Flow::Fail(e) => {
                return Step::Done(Err(e));
            },
            Flow::Got(o) => o,
        };
        let t = crate::text::trim_vec(&crate::text::chars_of(cur.as_str()));
        if crate::text::eq_str(&t, name) {
            return Step::Done(Err(Error::precondition("不能删除当前分支")));
        }
        let args2 = vec![s("branch"), s("-d"), s(name)];
        assert(strs(args2@) =~= seq!["branch"@, "-d"@, name@]);
        match self.git(replies, 1, args2) {
            Flow::Ask(q) => Step::Ask(q),
            Flow::Fail(e) => Step::Done(Err(e)),
            Flow::Got(_) => Step::Done(Ok(())),
        }
    }

    /// Deletes a branch on a remote (`git push <remote> --delete <branch>`; not undoable).
    pub fn delete_remote_branch(&self, remote: &str, branch: &str, replies: &[Reply]) -> (r: Step<()>)
        ensures
            step_view(r, |u: ()| u) == unit_spec(replies_view(replies@), self.dir(), seq!["push"@, remote@, "--delete"@, branch@]),
    {
        let args = vec![s("push"), s(remote), s("--delete"), s(branch)];
        assert(strs(args@) =~= seq!["push"@, remote@, "--delete"@, branch@]);
        self.git_unit(replies, args)
    }

    /// Renames a branch (git refuses when the new name exists).
    pub fn rename_branch(&self, old: &str, new: &str, replies: &[Reply]) -> (r: Step<()>)
        ensures
            step_view(r, |u: ()| u) == unit_spec(replies_view(replies@), self.dir(), seq!["branch"@, "-m"@, old@, new@]),
    {
        let args = vec![s("branch"), s("-m"), s(old), s(new)];
        assert(strs(args@) =~= seq!["branch"@, "-m"@, old@, new@]);
        self.git_unit(replies, args)
    }
}


// ───────────────────────── laws ─────────────────────────

/// A smart checkout reports a plain switch only when nothing had to be stashed or the
/// stashed changes came back cleanly (a conflicting return is reported with its files).
pub proof fn law_smart_checkout_reports_restore(rs: Seq<ReplyV>, k: int, dir: Seq<char>, args: Seq<Seq<char>>)
    ensures
        (checkout_autostash_at(rs, k, dir, args) matches Outcome::Done(SwitchV::Switched)) ==>
            (run_pid(rs, k) matches Outcome::Done(pid) && (
                (autostash_push_at(rs, k + 1, dir, autostash_label_spec(pid)) matches Outcome::Done((None, _)))
                || exists|j: int| #[trigger] autostash_pop_at(rs, j, dir, autostash_label_spec(pid)) matches Outcome::Done((PopV::Clean, _)))),
{
    let pid = run_pid(rs, k);
    if pid is Done {
        let label = autostash_label_spec(pid->Done_0);
        let p = autostash_push_at(rs, k + 1, dir, label);
        if p is Done {
            let o = run_checked(rs, p->Done_0.1, dir, args);
            if o is Done && o->Done_0.success && p->Done_0.0 is Some {
                let q = autostash_pop_at(rs, p->Done_0.1 + 1, dir, p->Done_0.0->Some_0);
                assert(p->Done_0.0->Some_0 == label) by {
                    assert(autostash_push_at(rs, k + 1, dir, label) is Done);
                }
            }
        }
    }
}

} // verus!
