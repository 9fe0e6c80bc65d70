//! Update: bringing the current branch up to date with its upstream, as a sequence of
//! steps that never loses local changes.
//!
//! The flow: refuse while another integration is in progress; require an upstream; fetch;
//! count ahead/behind; stash a dirty tree; fast-forward, merge or rebase; on conflicts stop
//! (after letting rerere resolve what it can); sync submodules; put the stash back. An
//! integration that fails without conflicts is aborted and the stash put back before the
//! failure is reported; when that cannot be done, the error names the stash.
use vstd::prelude::*;
use crate::text::{lines, trim, ws_tokens, parse_unsigned, views, starts_with};
use crate::error::{Error, ErrorV, error_text, str_debug};
use crate::repo::{Repo, Reply, Step, Flow, Outcome, GitOutV, ReplyV, step_view, flow_view, map_done, then, run_git, run_checked, run_exists, run_read, run_pid, git_reply, git_req, replies_view, strs, s, join_path, path_join};
use crate::stash::{StashRef, PopResult, PopV, autostash_label_spec, autostash_push_at, autostash_pop_at, find_autostash_at, opt_label};
use crate::conflict::{conflicted_at, ConflictFile, ConflictKind, classify_spec, conflict_files_view};

verus! {

/// How the current branch takes in its upstream.
#[derive(Debug, Clone, Copy, PartialEq, Eq, Structural)]
pub enum IntegrationStrategy {
    Merge,
    Rebase,
}

/// The options of an update.
#[derive(Debug, Clone)]
pub struct UpdateOptions {
    pub strategy: IntegrationStrategy,
    /// Ignore whitespace-only differences while integrating (fewer spurious conflicts).
    pub ignore_whitespace: bool,
    /// Also fetch the submodules' remotes, and check them out at their recorded commits.
    pub recurse_submodules: bool,
}

impl Default for UpdateOptions {
    fn default() -> (r: Self)
        ensures
            r.strategy == IntegrationStrategy::Merge,
            r.ignore_whitespace,
            r.recurse_submodules,
    {
        UpdateOptions { strategy: IntegrationStrategy::Merge, ignore_whitespace: true, recurse_submodules: true }
    }
}

/// What an update would do, found after fetching and before touching anything.
#[derive(Debug, Clone)]
pub struct UpdatePlan {
    pub upstream: String,
    pub behind: u32,
    pub ahead: u32,
    /// No local commits ahead: a fast-forward will do.
    pub can_fast_forward: bool,
    /// The tree is dirty: it will be stashed first.
    pub will_autostash: bool,
}

/// How an update ended.
#[derive(Debug)]
pub enum UpdateOutcome {
    /// Already up to date; nothing was done.
    AlreadyUpToDate,
    /// Fast-forwarded by this many commits.
    FastForwarded { commits: u32 },
    /// This many commits were merged or rebased in.
    Integrated { commits: u32, strategy: IntegrationStrategy },
    /// The integration stopped on conflicts; the automatic stash (if any) is kept.
    Conflicted { files: Vec<String>, autostash: Option<StashRef> },
    /// Integrated, but putting the stash back conflicted.
    StashRestoreConflict { files: Vec<String> },
    /// The integration was completed after its conflicts were resolved.
    Resolved,
    /// The repository was integrated, but syncing the submodules failed.
    SubmoduleSyncFailed { error: String },
}

pub enum UpdV {
    AlreadyUpToDate,
    FastForwarded(u32),
    Integrated(u32, IntegrationStrategy),
    Conflicted(Seq<Seq<char>>, Option<Seq<char>>),
    StashRestoreConflict(Seq<Seq<char>>),
    Resolved,
    SubmoduleSyncFailed(Seq<char>),
}

impl UpdateOutcome {
    pub open spec fn view(&self) -> UpdV {
        match self {
            UpdateOutcome::AlreadyUpToDate => UpdV::AlreadyUpToDate,
            UpdateOutcome::FastForwarded { commits } => UpdV::FastForwarded(*commits),
            UpdateOutcome::Integrated { commits, strategy } => UpdV::Integrated(*commits, *strategy),
            UpdateOutcome::Conflicted { files, autostash } => UpdV::Conflicted(strs(files@), opt_label(*autostash)),
            UpdateOutcome::StashRestoreConflict { files } => UpdV::StashRestoreConflict(strs(files@)),
            UpdateOutcome::Resolved => UpdV::Resolved,
            UpdateOutcome::SubmoduleSyncFailed { error } => UpdV::SubmoduleSyncFailed(error@),
        }
    }
}

/// The integration in progress in a repository.
#[derive(Debug, Clone, Copy, PartialEq, Eq, Structural)]
pub enum IntegrationKind {
    Merge,
    Rebase,
    CherryPick,
    Revert,
}

// ───────────────────────── state of the repository ─────────────────────────

pub open spec fn git_dir_args() -> Seq<Seq<char>> {
    seq!["rev-parse"@, "--git-dir"@]
}

/// The git directory (reply `k`): `rev-parse --git-dir`, relative to the working tree.
pub open spec fn git_dir_at(rs: Seq<ReplyV>, k: int, dir: Seq<char>) -> Outcome<(Seq<char>, int)> {
    map_done(run_git(rs, k, dir, git_dir_args()), |o: Seq<char>| (path_join(dir, trim(o)), k + 1))
}

/// The integration in progress (from reply `k`), told by the files git leaves in its
/// directory: `MERGE_HEAD`, `rebase-merge` or `rebase-apply`, `CHERRY_PICK_HEAD`, `REVERT_HEAD`.
pub open spec fn in_progress_at(rs: Seq<ReplyV>, k: int, dir: Seq<char>) -> Outcome<(Option<IntegrationKind>, int)> {
    then(git_dir_at(rs, k, dir), |g: (Seq<char>, int)|
        then(run_exists(rs, g.1, join_path(g.0, "MERGE_HEAD"@)), |m: bool| if m {
            Outcome::Done((Some(IntegrationKind::Merge), g.1 + 1))
        } else {
            then(run_exists(rs, g.1 + 1, join_path(g.0, "rebase-merge"@)), |a: bool| if a {
                Outcome::Done((Some(IntegrationKind::Rebase), g.1 + 2))
            } else {
                then(run_exists(rs, g.1 + 2, join_path(g.0, "rebase-apply"@)), |b: bool| if b {
                    Outcome::Done((Some(IntegrationKind::Rebase), g.1 + 3))
                } else {
                    then(run_exists(rs, g.1 + 3, join_path(g.0, "CHERRY_PICK_HEAD"@)), |c: bool| if c {
                        Outcome::Done((Some(IntegrationKind::CherryPick), g.1 + 4))
                    } else {
                        map_done(run_exists(rs, g.1 + 4, join_path(g.0, "REVERT_HEAD"@)), |d: bool|
                            (if d { Some(IntegrationKind::Revert) } else { None }, g.1 + 5))
                    })
                })
            })
        }))
}

pub open spec fn kind_name(kind: IntegrationKind) -> Seq<char> {
    match kind {
        IntegrationKind::Merge => "合并"@,
        IntegrationKind::Rebase => "变基"@,
        IntegrationKind::CherryPick => "拣选"@,
        IntegrationKind::Revert => "回退"@,
    }
}

pub open spec fn busy_msg(kind: IntegrationKind) -> Seq<char> {
    "已有"@ + kind_name(kind) + "进行中,请先解决或 abort"@
}

/// No integration may be in progress (from reply `k`): the next reply's index.
pub open spec fn preflight_at(rs: Seq<ReplyV>, k: int, dir: Seq<char>) -> Outcome<int> {
    then(in_progress_at(rs, k, dir), |p: (Option<IntegrationKind>, int)| match p.0 {
        Some(kind) => Outcome::Fail(ErrorV::Precondition(busy_msg(kind))),
        None => Outcome::Done(p.1),
    })
}

pub open spec fn upstream_args() -> Seq<Seq<char>> {
    seq!["rev-parse"@, "--abbrev-ref"@, "--symbolic-full-name"@, "@{u}"@]
}

pub open spec fn no_upstream_msg() -> Seq<char> {
    "当前分支没有设置 upstream"@
}

/// The upstream of the current branch (reply `k`), required.
pub open spec fn require_upstream_at(rs: Seq<ReplyV>, k: int, dir: Seq<char>) -> Outcome<(Seq<char>, int)> {
    then(run_checked(rs, k, dir, upstream_args()), |o: GitOutV| if o.success {
        Outcome::Done((trim(o.stdout), k + 1))
    } else {
        Outcome::Fail(ErrorV::Precondition(no_upstream_msg()))
    })
}

pub open spec fn fetch_args(recurse: bool) -> Seq<Seq<char>> {
    seq!["fetch"@, "--prune"@, "--progress"@] + if recurse { seq!["--recurse-submodules=on-demand"@] } else { Seq::empty() }
}

/// A cancellable fetch with progress (reply `k`), which must succeed.
pub open spec fn fetch_at(rs: Seq<ReplyV>, k: int, dir: Seq<char>, recurse: bool) -> Outcome<int> {
    map_done(git_reply(rs, k, git_req(dir, fetch_args(recurse), Seq::empty(), None, true), true), |o: GitOutV| k + 1)
}

pub open spec fn count_args() -> Seq<Seq<char>> {
    seq!["rev-list"@, "--left-right"@, "--count"@, "@{u}...HEAD"@]
}

pub open spec fn bad_count_msg(counts: Seq<char>) -> Seq<char> {
    "rev-list --count 输出异常: "@ + str_debug(counts)
}

/// (behind, ahead) from `rev-list --left-right --count` output.
pub open spec fn counts_spec(counts: Seq<char>) -> Option<(u32, u32)> {
    let toks = ws_tokens(counts);
    if toks.len() >= 2 {
        match (parse_unsigned(toks[0], u32::MAX as nat), parse_unsigned(toks[1], u32::MAX as nat)) {
            (Some(b), Some(a)) => Some((b as u32, a as u32)),
            _ => None,
        }
    } else {
        None
    }
}

/// (behind, ahead) relative to the upstream (reply `k`).
pub open spec fn ahead_behind_at(rs: Seq<ReplyV>, k: int, dir: Seq<char>) -> Outcome<((u32, u32), int)> {
    then(run_git(rs, k, dir, count_args()), |o: Seq<char>| match counts_spec(o) {
        Some(p) => Outcome::Done((p, k + 1)),
        None => Outcome::Fail(ErrorV::Parse(bad_count_msg(o))),
    })
}

pub open spec fn ff_args() -> Seq<Seq<char>> {
    seq!["merge"@, "--ff-only"@, "@{u}"@]
}

/// A fast-forward (reply `k`): `Ok(false)` when done; an error (caught by the caller)
/// otherwise. It never conflicts.
pub open spec fn ff_at(rs: Seq<ReplyV>, k: int, dir: Seq<char>) -> Outcome<(Result<bool, ErrorV>, int)> {
    match run_checked(rs, k, dir, ff_args()) {
        Outcome::Ask(q) => Outcome::Ask(q),
        Outcome::Fail(e) => Outcome::Done((Err(e), k + 1)),
        Outcome::Done(o) => if o.success {
            Outcome::Done((Ok(false), k + 1))
        } else {
            Outcome::Done((Err(ErrorV::Git(ff_args(), o.code, o.stderr)), k + 1))
        },
    }
}

pub open spec fn ws_flag(ignore_whitespace: bool) -> Seq<Seq<char>> {
    if ignore_whitespace { seq!["-Xignore-space-change"@] } else { Seq::empty() }
}

/// `merge` of `target` with rerere and zdiff3 conflict markers (which carry the base).
pub open spec fn merge_args(ignore_whitespace: bool, target: Seq<char>) -> Seq<Seq<char>> {
    seq!["-c"@, "rerere.enabled=true"@, "-c"@, "merge.conflictStyle=zdiff3"@, "merge"@, "--no-edit"@] + ws_flag(ignore_whitespace) + seq![target]
}

/// `rebase` onto `target` with rerere and zdiff3 conflict markers.
pub open spec fn rebase_args(ignore_whitespace: bool, target: Seq<char>) -> Seq<Seq<char>> {
    seq!["-c"@, "rerere.enabled=true"@, "-c"@, "merge.conflictStyle=zdiff3"@, "rebase"@] + ws_flag(ignore_whitespace) + seq![target]
}

/// A merge or rebase (from reply `k`): `Ok(false)` when done cleanly, `Ok(true)` when it
/// stopped on conflicts, an error (caught by the caller) when it failed otherwise.
pub open spec fn integrate_at(rs: Seq<ReplyV>, k: int, dir: Seq<char>, args: Seq<Seq<char>>) -> Outcome<(Result<bool, ErrorV>, int)> {
    match run_checked(rs, k, dir, args) {
        Outcome::Ask(q) => Outcome::Ask(q),
        Outcome::Fail(e) => Outcome::Done((Err(e), k + 1)),
        Outcome::Done(o) => if o.success {
            Outcome::Done((Ok(false), k + 1))
        } else {
            match conflicted_at(rs, k + 1, dir) {
                Outcome::Ask(q) => Outcome::Ask(q),
                Outcome::Fail(e) => Outcome::Done((Err(e), k + 2)),
                Outcome::Done(c) => if c.0.len() > 0 {
                    Outcome::Done((Ok(true), c.1))
                } else {
                    Outcome::Done((Err(ErrorV::Git(args, o.code, o.stderr)), c.1))
                },
            }
        },
    }
}

/// Does a line of `ls[..n]` start a conflict (`<<<<<<<`)?
pub open spec fn marker_scan(ls: Seq<Seq<char>>, n: int) -> bool
    decreases n,
{
    n > 0 && (marker_scan(ls, n - 1) || starts_with(ls[n - 1], "<<<<<<<"@))
}

pub open spec fn has_marker(content: Seq<char>) -> bool {
    marker_scan(lines(content), lines(content).len() as int)
}

/// After rerere replayed resolutions: each conflicted file of `files[i..]` without a
/// conflict marker left is marked resolved (`git add`), from reply `k`.
pub open spec fn rerere_from(rs: Seq<ReplyV>, k: int, dir: Seq<char>, files: Seq<Seq<char>>, i: int) -> Outcome<int>
    decreases files.len() - i,
{
    if i < 0 || i >= files.len() {
        Outcome::Done(k)
    } else {
        match run_read(rs, k, path_join(dir, files[i])) {
            Outcome::Ask(q) => Outcome::Ask(q),
            Outcome::Fail(e) => Outcome::Fail(e),
            Outcome::Done(content) => if has_marker(content) {
                rerere_from(rs, k + 1, dir, files, i + 1)
            } else {
                match run_git(rs, k + 1, dir, seq!["add"@, "--"@, files[i]]) {
                    Outcome::Ask(q) => Outcome::Ask(q),
                    Outcome::Fail(e) => Outcome::Fail(e),
                    Outcome::Done(_) => rerere_from(rs, k + 2, dir, files, i + 1),
                }
            },
        }
    }
}

pub open spec fn rerere_at(rs: Seq<ReplyV>, k: int, dir: Seq<char>) -> Outcome<int> {
    then(conflicted_at(rs, k, dir), |c: (Seq<Seq<char>>, int)| rerere_from(rs, c.1, dir, c.0, 0))
}

pub open spec fn sub_update_args() -> Seq<Seq<char>> {
    seq!["submodule"@, "update"@, "--init"@, "--recursive"@]
}

/// Syncing the submodules to their recorded commits (from reply `k`), when there is a
/// `.gitmodules`; a failure is caught and returned.
pub open spec fn sub_sync_at(rs: Seq<ReplyV>, k: int, dir: Seq<char>) -> Outcome<(Option<ErrorV>, int)> {
    match run_exists(rs, k, join_path(dir, ".gitmodules"@)) {
        Outcome::Ask(q) => Outcome::Ask(q),
        Outcome::Fail(e) => Outcome::Done((Some(e), k + 1)),
        Outcome::Done(false) => Outcome::Done((None, k + 1)),
        Outcome::Done(true) => match run_git(rs, k + 1, dir, sub_update_args()) {
            Outcome::Ask(q) => Outcome::Ask(q),
            Outcome::Fail(e) => Outcome::Done((Some(e), k + 2)),
            Outcome::Done(_) => Outcome::Done((None, k + 2)),
        },
    }
}

/// Putting an automatic stash back, if there is one (from reply `k`): the conflicted files
/// when it conflicts.
pub open spec fn pop_opt_at(rs: Seq<ReplyV>, k: int, dir: Seq<char>, autostash: Option<Seq<char>>) -> Outcome<(Option<Seq<Seq<char>>>, int)> {
    match autostash {
        None => Outcome::Done((None, k)),
        Some(l) => map_done(autostash_pop_at(rs, k, dir, l), |x: (PopV, int)| (match x.0 {
            PopV::Clean => None,
            PopV::Conflict(f) => Some(f),
        }, x.1)),
    }
}

/// The end of a successful integration (from reply `k`): sync the submodules if asked, put
/// the stash back; a conflicting restore, then a failed sync, take precedence over `done`.
pub open spec fn finish_at(rs: Seq<ReplyV>, k: int, dir: Seq<char>, autostash: Option<Seq<char>>, recurse: bool, done: UpdV) -> Outcome<UpdV> {
    then(if recurse { sub_sync_at(rs, k, dir) } else { Outcome::Done((None, k)) }, |ss: (Option<ErrorV>, int)|
        then(pop_opt_at(rs, ss.1, dir, autostash), |pp: (Option<Seq<Seq<char>>>, int)| match pp.0 {
            Some(files) => Outcome::Done(UpdV::StashRestoreConflict(files)),
            None => match ss.0 {
                Some(e) => Outcome::Done(UpdV::SubmoduleSyncFailed(error_text(e))),
                None => Outcome::Done(done),
            },
        }))
}

pub open spec fn continue_args(kind: IntegrationKind) -> Seq<Seq<char>> {
    match kind {
        IntegrationKind::Merge => seq!["-c"@, "rerere.enabled=true"@, "commit"@, "--no-edit"@],
        IntegrationKind::Rebase => seq!["-c"@, "rerere.enabled=true"@, "-c"@, "core.editor=true"@, "rebase"@, "--continue"@],
        IntegrationKind::CherryPick => seq!["-c"@, "core.editor=true"@, "-c"@, "rerere.enabled=true"@, "cherry-pick"@, "--continue"@],
        IntegrationKind::Revert => seq!["-c"@, "core.editor=true"@, "-c"@, "rerere.enabled=true"@, "revert"@, "--continue"@],
    }
}

pub open spec fn abort_args(kind: IntegrationKind) -> Seq<Seq<char>> {
    match kind {
        IntegrationKind::Merge => seq!["merge"@, "--abort"@],
        IntegrationKind::Rebase => seq!["rebase"@, "--abort"@],
        IntegrationKind::CherryPick => seq!["cherry-pick"@, "--abort"@],
        IntegrationKind::Revert => seq!["revert"@, "--abort"@],
    }
}

/// One command for the integration in progress, if any (reply `k`).
pub open spec fn kind_cmd_at(rs: Seq<ReplyV>, k: int, dir: Seq<char>, kind: Option<IntegrationKind>, cont: bool) -> Outcome<int> {
    match kind {
        None => Outcome::Done(k),
        Some(kd) => map_done(run_git(rs, k, dir, if cont { continue_args(kd) } else { abort_args(kd) }), |o: Seq<char>| k + 1),
    }
}

/// Completing an integration once its conflicts are resolved (from reply `k`).
pub open spec fn continue_at(rs: Seq<ReplyV>, k: int, dir: Seq<char>, autostash: Option<Seq<char>>, recurse: bool) -> Outcome<UpdV> {
    continue_mode_at(rs, k, dir, autostash, recurse, false)
}

/// Where conflicts remain (the files, from reply `k`): stop on them; or, with `rollback`,
/// give the integration up and put the stash back.
pub open spec fn on_conflicts_at(rs: Seq<ReplyV>, k: int, dir: Seq<char>, files: Seq<Seq<char>>, autostash: Option<Seq<char>>, rollback: bool) -> Outcome<UpdV> {
    if rollback {
        rollback_at(rs, k, dir, files, autostash)
    } else {
        Outcome::Done(UpdV::Conflicted(files, autostash))
    }
}

/// `continue_at`; with `rollback`, remaining conflicts are rolled back instead.
pub open spec fn continue_mode_at(rs: Seq<ReplyV>, k: int, dir: Seq<char>, autostash: Option<Seq<char>>, recurse: bool, rollback: bool) -> Outcome<UpdV> {
    then(conflicted_at(rs, k, dir), |c: (Seq<Seq<char>>, int)| if c.0.len() > 0 {
        on_conflicts_at(rs, c.1, dir, c.0, autostash, rollback)
    } else {
        then(in_progress_at(rs, c.1, dir), |ip: (Option<IntegrationKind>, int)|
            then(kind_cmd_at(rs, ip.1, dir, ip.0, true), |k3: int| finish_at(rs, k3, dir, autostash, recurse, UpdV::Resolved)))
    })
}

pub open spec fn strand_msg(label: Seq<char>) -> Seq<char> {
    "整合失败且改动未能自动还原,已保留在 stash「"@ + label + "」,请手动 `git stash pop` 取回"@
}

/// After an integration failed without conflicts (from reply `k`): abort it, put the stash
/// back, and report `cause`; when the abort fails or the stash cannot be put back cleanly,
/// the error names the stash (without a stash, a failed abort is the error).
pub open spec fn recover_at(rs: Seq<ReplyV>, k: int, dir: Seq<char>, autostash: Option<Seq<char>>, cause: ErrorV) -> Outcome<UpdV> {
    let aborted = then(in_progress_at(rs, k, dir), |ip: (Option<IntegrationKind>, int)| kind_cmd_at(rs, ip.1, dir, ip.0, false));
    match aborted {
        Outcome::Ask(q) => Outcome::Ask(q),
        Outcome::Fail(e) => match autostash {
            None => Outcome::Fail(e),
            Some(l) => Outcome::Fail(ErrorV::Precondition(strand_msg(l))),
        },
        Outcome::Done(k2) => match autostash {
            None => Outcome::Fail(cause),
            Some(l) => match autostash_pop_at(rs, k2, dir, l) {
                Outcome::Ask(q) => Outcome::Ask(q),
                Outcome::Done((PopV::Clean, _)) => Outcome::Fail(cause),
                _ => Outcome::Fail(ErrorV::Precondition(strand_msg(l))),
            },
        },
    }
}


// ───────────────────────── the steps ─────────────────────────

/// Rolling back an integration that stopped on conflicts (`files`, from reply `k`): abort
/// it and put the stash back. Done, it reports the files, with no stash left; when the
/// abort fails or the stash cannot be put back cleanly, the error names the stash (without
/// a stash, a failed abort is the error).
pub open spec fn rollback_at(rs: Seq<ReplyV>, k: int, dir: Seq<char>, files: Seq<Seq<char>>, autostash: Option<Seq<char>>) -> Outcome<UpdV> {
    let aborted = then(in_progress_at(rs, k, dir), |ip: (Option<IntegrationKind>, int)| kind_cmd_at(rs, ip.1, dir, ip.0, false));
    match aborted {
        Outcome::Ask(q) => Outcome::Ask(q),
        Outcome::Fail(e) => match autostash {
            None => Outcome::Fail(e),
            Some(l) => Outcome::Fail(ErrorV::Precondition(strand_msg(l))),
        },
        Outcome::Done(k2) => match autostash {
            None => Outcome::Done(UpdV::Conflicted(files, None)),
            Some(l) => match autostash_pop_at(rs, k2, dir, l) {
                Outcome::Ask(q) => Outcome::Ask(q),
                Outcome::Done((PopV::Clean, _)) => Outcome::Done(UpdV::Conflicted(files, None)),
                _ => Outcome::Fail(ErrorV::Precondition(strand_msg(l))),
            },
        },
    }
}

pub open spec fn opt_err(o: Option<Error>) -> Option<ErrorV> {
    match o {
        Some(e) => Some(e.view()),
        None => None,
    }
}

pub open spec fn res_view(r: Result<bool, Error>) -> Result<bool, ErrorV> {
    match r {
        Ok(b) => Ok(b),
        Err(e) => Err(e.view()),
    }
}

pub open spec fn opt_files(o: Option<Vec<String>>) -> Option<Seq<Seq<char>>> {
    match o {
        Some(v) => Some(strs(v@)),
        None => None,
    }
}

fn copy_stash(o: &Option<StashRef>) -> (r: Option<StashRef>)
    ensures
        opt_label(r) == opt_label(*o),
{
    match o {
        Some(st) => Some(StashRef { label: st.label.clone() }),
        None => None,
    }
}

fn kind_name_exec(kind: IntegrationKind) -> (r: &'static str)
    ensures
        r@ == kind_name(kind),
{
    match kind {
        IntegrationKind::Merge => "合并",
        IntegrationKind::Rebase => "变基",
        IntegrationKind::CherryPick => "拣选",
        IntegrationKind::Revert => "回退",
    }
}

fn continue_args_exec(kind: IntegrationKind) -> (r: Vec<String>)
    ensures
        strs(r@) == continue_args(kind),
{
    let r = match kind {
        IntegrationKind::Merge => vec![s("-c"), s("rerere.enabled=true"), s("commit"), s("--no-edit")],
        IntegrationKind::Rebase => vec![s("-c"), s("rerere.enabled=true"), s("-c"), s("core.editor=true"), s("rebase"), s("--continue")],
        IntegrationKind::CherryPick => vec![s("-c"), s("core.editor=true"), s("-c"), s("rerere.enabled=true"), s("cherry-pick"), s("--continue")],
        IntegrationKind::Revert => vec![s("-c"), s("core.editor=true"), s("-c"), s("rerere.enabled=true"), s("revert"), s("--continue")],
    };
    assert(strs(r@) =~= continue_args(kind));
    r
}

fn abort_args_exec(kind: IntegrationKind) -> (r: Vec<String>)
    ensures
        strs(r@) == abort_args(kind),
{
    let r = match kind {
        IntegrationKind::Merge => vec![s("merge"), s("--abort")],
        IntegrationKind::Rebase => vec![s("rebase"), s("--abort")],
        IntegrationKind::CherryPick => vec![s("cherry-pick"), s("--abort")],
        IntegrationKind::Revert => vec![s("revert"), s("--abort")],
    };
    assert(strs(r@) =~= abort_args(kind));
    r
}

fn ws_args(args: &mut Vec<String>, ignore_whitespace: bool, target: &str)
    ensures
        strs(final(args)@) == strs(old(args)@) + ws_flag(ignore_whitespace) + seq![target@],
{
    let ghost before = strs(args@);
    if ignore_whitespace {
        args.push(s("-Xignore-space-change"));
    }
    args.push(s(target));
    assert(strs(args@) =~= before + ws_flag(ignore_whitespace) + seq![target@]);
}

/// The arguments of a merge of `target`.
pub fn merge_args_exec(ignore_whitespace: bool, target: &str) -> (r: Vec<String>)
    ensures
        strs(r@) == merge_args(ignore_whitespace, target@),
{
    let mut a = vec![s("-c"), s("rerere.enabled=true"), s("-c"), s("merge.conflictStyle=zdiff3"), s("merge"), s("--no-edit")];
    let ghost h = strs(a@);
    ws_args(&mut a, ignore_whitespace, target);
    assert(h =~= seq!["-c"@, "rerere.enabled=true"@, "-c"@, "merge.conflictStyle=zdiff3"@, "merge"@, "--no-edit"@]);
    a
}

/// The arguments of a rebase onto `target`.
pub fn rebase_args_exec(ignore_whitespace: bool, target: &str) -> (r: Vec<String>)
    ensures
        strs(r@) == rebase_args(ignore_whitespace, target@),
{
    let mut a = vec![s("-c"), s("rerere.enabled=true"), s("-c"), s("merge.conflictStyle=zdiff3"), s("rebase")];
    let ghost h = strs(a@);
    ws_args(&mut a, ignore_whitespace, target);
    assert(h =~= seq!["-c"@, "rerere.enabled=true"@, "-c"@, "merge.conflictStyle=zdiff3"@, "rebase"@]);
    a
}

fn has_marker_exec(content: &str) -> (r: bool)
    ensures
        r == has_marker(content@),
{
    let ls = crate::text::lines_of(&crate::text::chars_of(content));
    let ghost lv = views(ls@);
    let mut i: usize = 0;
    let mut found = false;
    while i < ls.len()
        invariant
            i <= ls.len(),
            lv == views(ls@),
            lv == lines(content@),
            found == marker_scan(lv, i as int),
        decreases ls.len() - i,
    {
        assert(lv[i as int] == ls@[i as int]@);
        if crate::text::starts_with_str(&ls[i], "<<<<<<<") {
            found = true;
        }
        i = i + 1;
    }
    found
}

fn counts_exec(counts: &str) -> (r: Option<(u32, u32)>)
    ensures
        r == counts_spec(counts@),
{
    let toks = crate::text::split_ws(&crate::text::chars_of(counts));
    if toks.len() < 2 {
        return None;
    }
    assert(views(toks@)[0] == toks@[0]@ && views(toks@)[1] == toks@[1]@);
    match (crate::text::parse_u32(&toks[0]), crate::text::parse_u32(&toks[1])) {
        (Some(b), Some(a)) => Some((b, a)),
        _ => None,
    }
}

impl Repo {
    /// The git directory (reply `k`).
    pub fn git_dir(&self, replies: &[Reply], k: usize) -> (r: Flow<(String, usize)>)
        ensures
            flow_view(r, |p: (String, usize)| (p.0@, p.1 as int)) == git_dir_at(replies_view(replies@), k as int, self.dir()),
            !(r is Ask) ==> k < replies.len(),
    {
        let args = vec![s("rev-parse"), s("--git-dir")];
        assert(strs(args@) =~= git_dir_args());
        match self.git(replies, k, args) {
            Flow::Ask(q) => Flow::Ask(q),
            Flow::Fail(e) => Flow::Fail(e),
            Flow::Got(o) => {
                let t = crate::text::string_of(&crate::text::trim_vec(&crate::text::chars_of(o.as_str())));
                Flow::Got((crate::repo::join_any(self.workdir(), t.as_str()), k + 1))
            },
        }
    }

    /// The integration in progress, if any (from reply `k`).
    pub fn in_progress(&self, replies: &[Reply], k: usize) -> (r: Flow<(Option<IntegrationKind>, usize)>)
        ensures
            flow_view(r, |p: (Option<IntegrationKind>, usize)| (p.0, p.1 as int)) == in_progress_at(replies_view(replies@), k as int, self.dir()),
    {
        let (base, k1) = match self.git_dir(replies, k) {
            Flow::Ask(q) => {
                return Flow::Ask(q);
            },
            Flow::Fail(e) => {
                return Flow::Fail(e);
            },
            Flow::Got(p) => p,
        };
        match crate::repo::exists_flow(replies, k1, crate::repo::join(&base, "MERGE_HEAD")) {
            Flow::Ask(q) => {
                return Flow::Ask(q);
            },
            Flow::Fail(e) => {
                return Flow::Fail(e);
            },
            Flow::Got(true) => {
                return Flow::Got((Some(IntegrationKind::Merge), k1 + 1));
            },
            Flow::Got(false) => {},
        }
        match crate::repo::exists_flow(replies, k1 + 1, crate::repo::join(&base, "rebase-merge")) {
            Flow::Ask(q) => {
                return Flow::Ask(q);
            },
            Flow::Fail(e) => {
                return Flow::Fail(e);
            },
            Flow::Got(true) => {
                return Flow::Got((Some(IntegrationKind::Rebase), k1 + 2));
            },
            Flow::Got(false) => {},
        }
        match crate::repo::exists_flow(replies, k1 + 2, crate::repo::join(&base, "rebase-apply")) {
            Flow::Ask(q) => {
                return Flow::Ask(q);
            },
            Flow::Fail(e) => {
                return Flow::Fail(e);
            },
            Flow::Got(true) => {
                return Flow::Got((Some(IntegrationKind::Rebase), k1 + 3));
            },
            Flow::Got(false) => {},
        }
        match crate::repo::exists_flow(replies, k1 + 3, crate::repo::join(&base, "CHERRY_PICK_HEAD")) {
            Flow::Ask(q) => {
                return Flow::Ask(q);
            },
            Flow::Fail(e) => {
                return Flow::Fail(e);
            },
            Flow::Got(true) => {
                return Flow::Got((Some(IntegrationKind::CherryPick), k1 + 4));
            },
            Flow::Got(false) => {},
        }
        match crate::repo::exists_flow(replies, k1 + 4, crate::repo::join(&base, "REVERT_HEAD")) {
            Flow::Ask(q) => Flow::Ask(q),
            Flow::Fail(e) => Flow::Fail(e),
            Flow::Got(d) => Flow::Got((if d { Some(IntegrationKind::Revert) } else { None }, k1 + 5)),
        }
    }

    /// Refuses to start while an integration is in progress (from reply `k`).
    pub fn preflight(&self, replies: &[Reply], k: usize) -> (r: Flow<usize>)
        ensures
            flow_view(r, |n: usize| n as int) == preflight_at(replies_view(replies@), k as int, self.dir()),
    {
        match self.in_progress(replies, k) {
            Flow::Ask(q) => Flow::Ask(q),
            Flow::Fail(e) => Flow::Fail(e),
            Flow::Got((Some(kind), _)) => {
                let mut m = crate::text::chars_of("已有");
                crate::text::push_str(&mut m, kind_name_exec(kind));
                crate::text::push_str(&mut m, "进行中,请先解决或 abort");
                Flow::Fail(Error::Precondition(crate::text::string_of(&m)))
            },
            Flow::Got((None, k2)) => Flow::Got(k2),
        }
    }

    /// The upstream of the current branch, required (reply `k`).
    pub fn require_upstream(&self, replies: &[Reply], k: usize) -> (r: Flow<(String, usize)>)
        ensures
            flow_view(r, |p: (String, usize)| (p.0@, p.1 as int)) == require_upstream_at(replies_view(replies@), k as int, self.dir()),
    {
        let args = vec![s("rev-parse"), s("--abbrev-ref"), s("--symbolic-full-name"), s("@{u}")];
        assert(strs(args@) =~= upstream_args());
        match self.git_checked(replies, k, args) {
            Flow::Ask(q) => Flow::Ask(q),
            Flow::Fail(e) => Flow::Fail(e),
            Flow::Got(o) => {
                if o.success {
                    Flow::Got((crate::text::string_of(&crate::text::trim_vec(&crate::text::chars_of(o.stdout.as_str()))), k + 1))
                } else {
                    Flow::Fail(Error::precondition("当前分支没有设置 upstream"))
                }
            },
        }
    }

    /// A cancellable fetch with progress (reply `k`), which must succeed.
    pub fn fetch(&self, replies: &[Reply], k: usize, recurse: bool) -> (r: Flow<usize>)
        ensures
            flow_view(r, |n: usize| n as int) == fetch_at(replies_view(replies@), k as int, self.dir(), recurse),
    {
        let mut args = vec![s("fetch"), s("--prune"), s("--progress")];
        if recurse {
            args.push(s("--recurse-submodules=on-demand"));
        }
        assert(strs(args@) =~= fetch_args(recurse));
        let call = crate::repo::GitCall { dir: self.workdir().clone(), args, env: Vec::new(), stdin: None, streaming: true };
        assert(call.view().env =~= Seq::<(Seq<char>, Seq<char>)>::empty());
        match crate::repo::git_flow(replies, k, call, true) {
            Flow::Ask(q) => Flow::Ask(q),
            Flow::Fail(e) => Flow::Fail(e),
            Flow::Got(_) => Flow::Got(k + 1),
        }
    }

    /// (behind, ahead) relative to the upstream (reply `k`).
    pub fn ahead_behind(&self, replies: &[Reply], k: usize) -> (r: Flow<((u32, u32), usize)>)
        ensures
            flow_view(r, |p: ((u32, u32), usize)| (p.0, p.1 as int)) == ahead_behind_at(replies_view(replies@), k as int, self.dir()),
    {
        let args = vec![s("rev-list"), s("--left-right"), s("--count"), s("@{u}...HEAD")];
        assert(strs(args@) =~= count_args());
        match self.git(replies, k, args) {
            Flow::Ask(q) => Flow::Ask(q),
            Flow::Fail(e) => Flow::Fail(e),
            Flow::Got(o) => match counts_exec(o.as_str()) {
                Some(p) => Flow::Got((p, k + 1)),
                None => {
                    let mut m = crate::text::chars_of("rev-list --count 输出异常: ");
                    let d = crate::error::debug_quoted(o.as_str());
                    crate::text::push_str(&mut m, d.as_str());
                    Flow::Fail(Error::Parse(crate::text::string_of(&m)))
                },
            },
        }
    }

    /// A fast-forward to the upstream (reply `k`).
    pub fn fast_forward(&self, replies: &[Reply], k: usize) -> (r: Flow<(Result<bool, Error>, usize)>)
        ensures
            flow_view(r, |p: (Result<bool, Error>, usize)| (res_view(p.0), p.1 as int)) == ff_at(replies_view(replies@), k as int, self.dir()),
    {
        let args = vec![s("merge"), s("--ff-only"), s("@{u}")];
        assert(strs(args@) =~= ff_args());
        let args2 = vec![s("merge"), s("--ff-only"), s("@{u}")];
        assert(strs(args2@) =~= ff_args());
        match self.git_checked(replies, k, args) {
            Flow::Ask(q) => Flow::Ask(q),
            Flow::Fail(e) => Flow::Got((Err(e), k + 1)),
            Flow::Got(o) => {
                if o.success {
                    Flow::Got((Ok(false), k + 1))
                } else {
                    Flow::Got((Err(Error::Git { args: args2, code: o.code, stderr: o.stderr }), k + 1))
                }
            },
        }
    }

    /// A merge or rebase (from reply `k`): did it stop on conflicts?
    pub fn integrate(&self, replies: &[Reply], k: usize, args: Vec<String>) -> (r: Flow<(Result<bool, Error>, usize)>)
        ensures
            flow_view(r, |p: (Result<bool, Error>, usize)| (res_view(p.0), p.1 as int)) == integrate_at(replies_view(replies@), k as int, self.dir(), strs(args@)),
    {
        let keep = crate::repo::copy_strings(&args);
        let o = match self.git_checked(replies, k, args) {
            Flow::Ask(q) => {
                return Flow::Ask(q);
            },
            Flow::Fail(e) => {
                return Flow::Got((Err(e), k + 1));
            },
            Flow::Got(o) => o,
        };
        if o.success {
            return Flow::Got((Ok(false), k + 1));
        }
        match self.conflicted_at(replies, k + 1) {
            Flow::Ask(q) => Flow::Ask(q),
            Flow::Fail(e) => Flow::Got((Err(e), k + 2)),
            Flow::Got(files) => {
                if files.len() > 0 {
                    Flow::Got((Ok(true), k + 2))
                } else {
                    Flow::Got((Err(Error::Git { args: keep, code: o.code, stderr: o.stderr }), k + 2))
                }
            },
        }
    }

    fn rerere_from(&self, replies: &[Reply], k: usize, files: &Vec<String>, i: usize) -> (r: Flow<usize>)
        requires
            i <= files.len(),
        ensures
            flow_view(r, |n: usize| n as int) == rerere_from(replies_view(replies@), k as int, self.dir(), strs(files@), i as int),
        decreases files.len() - i,
    {
        if i >= files.len() {
            return Flow::Got(k);
        }
        let ghost fv = strs(files@);
        assert(fv[i as int] == files@[i as int]@);
        let path = crate::repo::join_any(self.workdir(), files[i].as_str());
        let content = match crate::repo::read_flow(replies, k, path) {
            Flow::Ask(q) => {
                return Flow::Ask(q);
            },
            Flow::Fail(e) => {
                return Flow::Fail(e);
            },
            Flow::Got(c) => c,
        };
        if has_marker_exec(content.as_str()) {
            return self.rerere_from(replies, k + 1, files, i + 1);
        }
        let args = vec![s("add"), s("--"), files[i].clone()];
        assert(strs(args@) =~= seq!["add"@, "--"@, fv[i as int]]);
        match self.git(replies, k + 1, args) {
            Flow::Ask(q) => Flow::Ask(q),
            Flow::Fail(e) => Flow::Fail(e),
            Flow::Got(_) => self.rerere_from(replies, k + 2, files, i + 1),
        }
    }

    /// Marks the conflicted files that rerere resolved (no marker left) as resolved (from reply `k`).
    pub fn auto_resolve_rerere(&self, replies: &[Reply], k: usize) -> (r: Flow<usize>)
        ensures
            flow_view(r, |n: usize| n as int) == rerere_at(replies_view(replies@), k as int, self.dir()),
    {
        match self.conflicted_at(replies, k) {
            Flow::Ask(q) => Flow::Ask(q),
            Flow::Fail(e) => Flow::Fail(e),
            Flow::Got(files) => self.rerere_from(replies, k + 1, &files, 0),
        }
    }

    /// Syncs the submodules to their recorded commits, catching a failure (from reply `k`).
    pub fn sync_submodules(&self, replies: &[Reply], k: usize) -> (r: Flow<(Option<Error>, usize)>)
        ensures
            flow_view(r, |p: (Option<Error>, usize)| (opt_err(p.0), p.1 as int)) == sub_sync_at(replies_view(replies@), k as int, self.dir()),
    {
        match crate::repo::exists_flow(replies, k, crate::repo::join(self.workdir(), ".gitmodules")) {
            Flow::Ask(q) => {
                return Flow::Ask(q);
            },
            Flow::Fail(e) => {
                proof {
                    assert(k < replies.len());
                }
                return Flow::Got((Some(e), k + 1));
            },
            Flow::Got(false) => {
                return Flow::Got((None, k + 1));
            },
            Flow::Got(true) => {},
        }
        let args = vec![s("submodule"), s("update"), s("--init"), s("--recursive")];
        assert(strs(args@) =~= sub_update_args());
        match self.git(replies, k + 1, args) {
            Flow::Ask(q) => Flow::Ask(q),
            Flow::Fail(e) => Flow::Got((Some(e), k + 2)),
            Flow::Got(_) => Flow::Got((None, k + 2)),
        }
    }

    fn pop_opt(&self, replies: &[Reply], k: usize, autostash: &Option<StashRef>) -> (r: Flow<(Option<Vec<String>>, usize)>)
        ensures
            flow_view(r, |p: (Option<Vec<String>>, usize)| (opt_files(p.0), p.1 as int)) == pop_opt_at(replies_view(replies@), k as int, self.dir(), opt_label(*autostash)),
    {
        match autostash {
            None => Flow::Got((None, k)),
            Some(st) => match self.autostash_pop(replies, k, st) {
                Flow::Ask(q) => Flow::Ask(q),
                Flow::Fail(e) => Flow::Fail(e),
                Flow::Got((PopResult::Clean, k2)) => Flow::Got((None, k2)),
                Flow::Got((PopResult::Conflict(f), k2)) => Flow::Got((Some(f), k2)),
            },
        }
    }

    fn kind_cmd(&self, replies: &[Reply], k: usize, kind: Option<IntegrationKind>, cont: bool) -> (r: Flow<usize>)
        ensures
            flow_view(r, |n: usize| n as int) == kind_cmd_at(replies_view(replies@), k as int, self.dir(), kind, cont),
    {
        match kind {
            None => Flow::Got(k),
            Some(kd) => {
                let args = if cont { continue_args_exec(kd) } else { abort_args_exec(kd) };
                match self.git(replies, k, args) {
                    Flow::Ask(q) => Flow::Ask(q),
                    Flow::Fail(e) => Flow::Fail(e),
                    Flow::Got(_) => Flow::Got(k + 1),
                }
            },
        }
    }

    fn finish(&self, replies: &[Reply], k: usize, autostash: &Option<StashRef>, recurse: bool, done: UpdateOutcome) -> (r: Step<UpdateOutcome>)
        ensures
            step_view(r, |o: UpdateOutcome| o.view()) == finish_at(replies_view(replies@), k as int, self.dir(), opt_label(*autostash), recurse, done.view()),
    {
        let (sub_err, k2) = if recurse {
            match self.sync_submodules(replies, k) {
                Flow::Ask(q) => {
                    return Step::Ask(q);
                },
                Flow::Fail(e) => {
                    return Step::Done(Err(e));
                },
                Flow::Got(p) => p,
            }
        } else {
            (None, k)
        };
        match self.pop_opt(replies, k2, autostash) {
            Flow::Ask(q) => Step::Ask(q),
            Flow::Fail(e) => Step::Done(Err(e)),
            Flow::Got((Some(files), _)) => Step::Done(Ok(UpdateOutcome::StashRestoreConflict { files })),
            Flow::Got((None, _)) => match sub_err {
                Some(e) => Step::Done(Ok(UpdateOutcome::SubmoduleSyncFailed { error: e.message() })),
                None => Step::Done(Ok(done)),
            },
        }
    }

    /// Completes an integration after its conflicts were resolved (from reply `k`).
    pub(crate) fn continue_from(&self, replies: &[Reply], k: usize, autostash: Option<StashRef>, recurse: bool) -> (r: Step<UpdateOutcome>)
        ensures
            step_view(r, |o: UpdateOutcome| o.view()) == continue_at(replies_view(replies@), k as int, self.dir(), opt_label(autostash), recurse),
    {
        self.continue_from_mode(replies, k, autostash, recurse, false)
    }

    /// Stops on the conflicted `files` (next reply `k`), or rolls the integration back.
    fn on_conflicts(&self, replies: &[Reply], k: usize, files: Vec<String>, autostash: Option<StashRef>, rollback: bool) -> (r: Step<UpdateOutcome>)
        ensures
            step_view(r, |o: UpdateOutcome| o.view()) == on_conflicts_at(replies_view(replies@), k as int, self.dir(), strs(files@), opt_label(autostash), rollback),
    {
        if rollback {
            self.rollback(replies, k, files, autostash)
        } else {
            Step::Done(Ok(UpdateOutcome::Conflicted { files, autostash }))
        }
    }

    /// Aborts an integration stopped on the conflicted `files` and puts the stash back.
    fn rollback(&self, replies: &[Reply], k: usize, files: Vec<String>, autostash: Option<StashRef>) -> (r: Step<UpdateOutcome>)
        ensures
            step_view(r, |o: UpdateOutcome| o.view()) == rollback_at(replies_view(replies@), k as int, self.dir(), strs(files@), opt_label(autostash)),
    {
        let aborted: Flow<usize> = match self.in_progress(replies, k) {
            Flow::Ask(q) => Flow::Ask(q),
            Flow::Fail(e) => Flow::Fail(e),
            Flow::Got((kind, k2)) => self.kind_cmd(replies, k2, kind, false),
        };
        match aborted {
            Flow::Ask(q) => Step::Ask(q),
            Flow::Fail(e) => match autostash {
                None => Step::Done(Err(e)),
                Some(st) => Step::Done(Err(Self::strand_error(&st.label))),
            },
            Flow::Got(k3) => match autostash {
                None => Step::Done(Ok(UpdateOutcome::Conflicted { files, autostash: None })),
                Some(st) => match self.autostash_pop(replies, k3, &st) {
                    Flow::Ask(q) => Step::Ask(q),
                    Flow::Got((PopResult::Clean, _)) => Step::Done(Ok(UpdateOutcome::Conflicted { files, autostash: None })),
                    _ => Step::Done(Err(Self::strand_error(&st.label))),
                },
            },
        }
    }

    /// `continue_from`; with `rollback`, remaining conflicts are rolled back.
    fn continue_from_mode(&self, replies: &[Reply], k: usize, autostash: Option<StashRef>, recurse: bool, rollback: bool) -> (r: Step<UpdateOutcome>)
        ensures
            step_view(r, |o: UpdateOutcome| o.view()) == continue_mode_at(replies_view(replies@), k as int, self.dir(), opt_label(autostash), recurse, rollback),
    {
        let files = match self.conflicted_at(replies, k) {
            Flow::Ask(q) => {
                return Step::Ask(q);
            },
            Flow::Fail(e) => {
                return Step::Done(Err(e));
            },
            Flow::Got(f) => f,
        };
        if files.len() > 0 {
            return self.on_conflicts(replies, k + 1, files, autostash, rollback);
        }
        let (kind, k2) = match self.in_progress(replies, k + 1) {
            Flow::Ask(q) => {
                return Step::Ask(q);
            },
            Flow::Fail(e) => {
                return Step::Done(Err(e));
            },
            Flow::Got(p) => p,
        };
        let k3 = match self.kind_cmd(replies, k2, kind, true) {
            Flow::Ask(q) => {
                return Step::Ask(q);
            },
            Flow::Fail(e) => {
                return Step::Done(Err(e));
            },
            Flow::Got(n) => n,
        };
        self.finish(replies, k3, &autostash, recurse, UpdateOutcome::Resolved)
    }

    fn strand_error(label: &String) -> (r: Error)
        ensures
            r.view() == ErrorV::Precondition(strand_msg(label@)),
    {
        let mut m = crate::text::chars_of("整合失败且改动未能自动还原,已保留在 stash「");
        crate::text::push_str(&mut m, label.as_str());
        crate::text::push_str(&mut m, "」,请手动 `git stash pop` 取回");
        Error::Precondition(crate::text::string_of(&m))
    }

    fn recover(&self, replies: &[Reply], k: usize, autostash: Option<StashRef>, cause: Error) -> (r: Step<UpdateOutcome>)
        ensures
            step_view(r, |o: UpdateOutcome| o.view()) == recover_at(replies_view(replies@), k as int, self.dir(), opt_label(autostash), cause.view()),
    {
        let aborted: Flow<usize> = match self.in_progress(replies, k) {
            Flow::Ask(q) => Flow::Ask(q),
            Flow::Fail(e) => Flow::Fail(e),
            Flow::Got((kind, k2)) => self.kind_cmd(replies, k2, kind, false),
        };
        match aborted {
            Flow::Ask(q) => Step::Ask(q),
            Flow::Fail(e) => match autostash {
                None => Step::Done(Err(e)),
                Some(st) => Step::Done(Err(Self::strand_error(&st.label))),
            },
            Flow::Got(k3) => match autostash {
                None => Step::Done(Err(cause)),
                Some(st) => match self.autostash_pop(replies, k3, &st) {
                    Flow::Ask(q) => Step::Ask(q),
                    Flow::Got((PopResult::Clean, _)) => Step::Done(Err(cause)),
                    _ => Step::Done(Err(Self::strand_error(&st.label))),
                },
            },
        }
    }
}


// ───────────────────────── the operations ─────────────────────────

/// After the stash (from reply `k`): integrate; on a failure recover; on conflicts let
/// rerere work and stop, or roll back with `rollback` (or complete when nothing is left);
/// else finish.
pub open spec fn after_stash_at(rs: Seq<ReplyV>, k: int, dir: Seq<char>, strategy: IntegrationStrategy, ign: bool, recurse: bool, behind: u32, ahead: u32, autostash: Option<Seq<char>>, rollback: bool) -> Outcome<UpdV> {
    let integ = if ahead == 0 {
        ff_at(rs, k, dir)
    } else if strategy == IntegrationStrategy::Merge {
        integrate_at(rs, k, dir, merge_args(ign, "@{u}"@))
    } else {
        integrate_at(rs, k, dir, rebase_args(ign, "@{u}"@))
    };
    then(integ, |ig: (Result<bool, ErrorV>, int)| match ig.0 {
        Err(cause) => recover_at(rs, ig.1, dir, autostash, cause),
        Ok(true) => then(rerere_at(rs, ig.1, dir), |k5: int| then(conflicted_at(rs, k5, dir), |c: (Seq<Seq<char>>, int)|
            if c.0.len() == 0 {
                continue_mode_at(rs, c.1, dir, autostash, recurse, rollback)
            } else {
                on_conflicts_at(rs, c.1, dir, c.0, autostash, rollback)
            })),
        Ok(false) => finish_at(rs, ig.1, dir, autostash, recurse, if ahead == 0 {
            UpdV::FastForwarded(behind)
        } else {
            UpdV::Integrated(behind, strategy)
        }),
    })
}

/// A whole update, from reply `k`.
pub open spec fn execute_at(rs: Seq<ReplyV>, k: int, dir: Seq<char>, strategy: IntegrationStrategy, ign: bool, recurse: bool) -> Outcome<UpdV> {
    execute_mode_at(rs, k, dir, strategy, ign, recurse, false)
}

/// `execute_at`; with `rollback`, an integration that stops on conflicts is rolled back.
pub open spec fn execute_mode_at(rs: Seq<ReplyV>, k: int, dir: Seq<char>, strategy: IntegrationStrategy, ign: bool, recurse: bool, rollback: bool) -> Outcome<UpdV> {
    then(preflight_at(rs, k, dir), |k1: int|
        then(require_upstream_at(rs, k1, dir), |u: (Seq<char>, int)|
            then(fetch_at(rs, u.1, dir, recurse), |k3: int|
                then(ahead_behind_at(rs, k3, dir), |ab: ((u32, u32), int)|
                    if ab.0.0 == 0 {
                        Outcome::Done(UpdV::AlreadyUpToDate)
                    } else {
                        then(run_pid(rs, ab.1), |pid: u64|
                            then(autostash_push_at(rs, ab.1 + 1, dir, autostash_label_spec(pid)), |st: (Option<Seq<char>>, int)|
                                after_stash_at(rs, st.1, dir, strategy, ign, recurse, ab.0.0, ab.0.1, st.0, rollback)))
                    }))))
}

/// Stashing a dirty tree before integrating a branch (from reply `k`).
pub open spec fn snapshot_at(rs: Seq<ReplyV>, k: int, dir: Seq<char>) -> Outcome<(Option<Seq<char>>, int)> {
    then(run_git(rs, k, dir, crate::stash::porcelain_args()), |o: Seq<char>| if trim(o).len() == 0 {
        Outcome::Done((None, k + 1))
    } else {
        then(run_pid(rs, k + 1), |pid: u64| autostash_push_at(rs, k + 2, dir, autostash_label_spec(pid)))
    })
}

/// Merging or rebasing onto `branch` after the stash (from reply `k`); a failure is returned
/// as it is.
pub open spec fn integrate_branch_at(rs: Seq<ReplyV>, k: int, dir: Seq<char>, branch: Seq<char>, ign: bool, autostash: Option<Seq<char>>, rebase: bool) -> Outcome<UpdV> {
    then(integrate_at(rs, k, dir, if rebase { rebase_args(ign, branch) } else { merge_args(ign, branch) }), |ig: (Result<bool, ErrorV>, int)|
        match ig.0 {
            Err(e) => Outcome::Fail(e),
            Ok(true) => then(rerere_at(rs, ig.1, dir), |k5: int| then(conflicted_at(rs, k5, dir), |c: (Seq<Seq<char>>, int)|
                if c.0.len() == 0 {
                    continue_at(rs, c.1, dir, autostash, false)
                } else {
                    Outcome::Done(UpdV::Conflicted(c.0, autostash))
                })),
            Ok(false) => then(pop_opt_at(rs, ig.1, dir, autostash), |pp: (Option<Seq<Seq<char>>>, int)| match pp.0 {
                Some(files) => Outcome::Done(UpdV::StashRestoreConflict(files)),
                None => Outcome::Done(UpdV::Resolved),
            }),
        })
}

pub open spec fn branch_integration_spec(rs: Seq<ReplyV>, dir: Seq<char>, branch: Seq<char>, ign: bool, rebase: bool) -> Outcome<UpdV> {
    then(preflight_at(rs, 0, dir), |k1: int|
        then(snapshot_at(rs, k1, dir), |st: (Option<Seq<char>>, int)| integrate_branch_at(rs, st.1, dir, branch, ign, st.0, rebase)))
}

pub open spec fn abort_spec(rs: Seq<ReplyV>, dir: Seq<char>, autostash: Option<Seq<char>>) -> Outcome<()> {
    then(in_progress_at(rs, 0, dir), |ip: (Option<IntegrationKind>, int)|
        then(kind_cmd_at(rs, ip.1, dir, ip.0, false), |k2: int| match autostash {
            None => Outcome::Done(()),
            Some(l) => map_done(autostash_pop_at(rs, k2, dir, l), |x: (PopV, int)| ()),
        }))
}

/// An interrupted integration: its conflicted files and the automatic stash found again.
pub open spec fn resume_spec(rs: Seq<ReplyV>, dir: Seq<char>) -> Outcome<Option<(Seq<Seq<char>>, Option<Seq<char>>)>> {
    then(in_progress_at(rs, 0, dir), |ip: (Option<IntegrationKind>, int)| match ip.0 {
        None => Outcome::Done(None),
        Some(_) => then(conflicted_at(rs, ip.1, dir), |c: (Seq<Seq<char>>, int)| if c.0.len() == 0 {
            Outcome::Done(None)
        } else {
            map_done(find_autostash_at(rs, c.1, dir), |f: (Option<Seq<char>>, int)| Some((c.0, f.0)))
        }),
    })
}

/// Cherry-pick or revert (`args`): resolved, stopped on conflicts, or failed.
pub open spec fn pick_spec(rs: Seq<ReplyV>, dir: Seq<char>, args: Seq<Seq<char>>) -> Outcome<UpdV> {
    then(preflight_at(rs, 0, dir), |k1: int|
        then(run_checked(rs, k1, dir, args), |o: GitOutV| if o.success {
            Outcome::Done(UpdV::Resolved)
        } else {
            then(conflicted_at(rs, k1 + 1, dir), |c: (Seq<Seq<char>>, int)| if c.0.len() > 0 {
                Outcome::Done(UpdV::Conflicted(c.0, None))
            } else {
                Outcome::Fail(ErrorV::Git(args, o.code, o.stderr))
            })
        }))
}

/// What updating a submodule on its own branch did.
#[derive(Debug)]
pub enum SubmoduleUpdate {
    /// Already up to date.
    UpToDate,
    /// This many commits were integrated on its branch.
    Updated { commits: u32 },
    /// Its HEAD was detached: it was synced to the commit the parent records instead.
    SyncedToRecorded,
    /// Skipped: its branch has no upstream.
    SkippedNoUpstream,
    /// The pull conflicted and was rolled back (the integration aborted, the stash put
    /// back, no half-merged state left): the submodule's absolute path and the files that
    /// conflicted.
    Conflicted { repo_path: String, files: Vec<String> },
    /// Integrated, but putting the stash back conflicted.
    StashConflict,
}

pub enum SubV {
    UpToDate,
    Updated(u32),
    SyncedToRecorded,
    SkippedNoUpstream,
    Conflicted(Seq<char>, Seq<Seq<char>>),
    StashConflict,
}

impl SubmoduleUpdate {
    pub open spec fn view(&self) -> SubV {
        match self {
            SubmoduleUpdate::UpToDate => SubV::UpToDate,
            SubmoduleUpdate::Updated { commits } => SubV::Updated(*commits),
            SubmoduleUpdate::SyncedToRecorded => SubV::SyncedToRecorded,
            SubmoduleUpdate::SkippedNoUpstream => SubV::SkippedNoUpstream,
            SubmoduleUpdate::Conflicted { repo_path, files } => SubV::Conflicted(repo_path@, strs(files@)),
            SubmoduleUpdate::StashConflict => SubV::StashConflict,
        }
    }
}

/// How a submodule's update outcome reads as a submodule result.
pub open spec fn sub_of(u: UpdV, abs: Seq<char>) -> SubV {
    match u {
        UpdV::AlreadyUpToDate => SubV::UpToDate,
        UpdV::FastForwarded(c) => SubV::Updated(c),
        UpdV::Integrated(c, _) => SubV::Updated(c),
        UpdV::Resolved => SubV::Updated(0),
        UpdV::Conflicted(files, _) => SubV::Conflicted(abs, files),
        UpdV::StashRestoreConflict(_) => SubV::StashConflict,
        UpdV::SubmoduleSyncFailed(_) => SubV::Updated(0),
    }
}

pub open spec fn head_args() -> Seq<Seq<char>> {
    seq!["rev-parse"@, "--abbrev-ref"@, "HEAD"@]
}

/// Updating a submodule on its current branch: a detached one is synced to its recorded
/// commit, one without upstream is skipped, any other gets an update of its own (without
/// recursing further) whose conflicts are rolled back rather than left half-merged.
pub open spec fn sub_branch_spec(rs: Seq<ReplyV>, dir: Seq<char>, sub_path: Seq<char>, strategy: IntegrationStrategy, ign: bool) -> Outcome<SubV> {
    let abs = path_join(dir, sub_path);
    then(run_git(rs, 0, abs, git_dir_args()), |o: Seq<char>|
        then(run_git(rs, 1, abs, head_args()), |head: Seq<char>| if trim(head) == "HEAD"@ {
            map_done(run_git(rs, 2, dir, seq!["submodule"@, "update"@, "--init"@, "--"@, sub_path]), |x: Seq<char>| SubV::SyncedToRecorded)
        } else {
            then(run_checked(rs, 2, abs, upstream_args()), |u: GitOutV| if !u.success {
                Outcome::Done(SubV::SkippedNoUpstream)
            } else {
                map_done(execute_mode_at(rs, 3, abs, strategy, ign, false, true), |x: UpdV| sub_of(x, abs))
            })
        }))
}

/// An interrupted integration to resume.
#[derive(Debug, Clone)]
pub struct PendingConflicts {
    pub files: Vec<String>,
    pub autostash: Option<StashRef>,
}

/// The conflict state of the repository: the integration in progress, the conflicted files
/// with their kinds, the automatic stash left behind.
#[derive(Debug, Clone)]
pub struct ConflictState {
    pub integration: Option<IntegrationKind>,
    pub files: Vec<ConflictFile>,
    pub autostash: Option<StashRef>,
}

pub open spec fn conflict_state_spec(rs: Seq<ReplyV>, dir: Seq<char>) -> Outcome<(Option<IntegrationKind>, Seq<(Seq<char>, ConflictKind)>, Option<Seq<char>>)> {
    then(in_progress_at(rs, 0, dir), |ip: (Option<IntegrationKind>, int)|
        then(crate::conflict::classify_at(rs, ip.1, dir), |cf: (Seq<(Seq<char>, ConflictKind)>, int)|
            map_done(find_autostash_at(rs, cf.1, dir), |f: (Option<Seq<char>>, int)| (ip.0, cf.0, f.0))))
}

pub open spec fn unresolved_msg() -> Seq<char> {
    "仍有未解决的冲突文件,请先解决"@
}

/// Finishing a conflicting stash restore: no conflict may remain; then the stash, now in the
/// working tree, is dropped.
pub open spec fn finish_restore_spec(rs: Seq<ReplyV>, dir: Seq<char>, autostash: Option<Seq<char>>) -> Outcome<()> {
    then(conflicted_at(rs, 0, dir), |c: (Seq<Seq<char>>, int)| if c.0.len() > 0 {
        Outcome::Fail(ErrorV::Precondition(unresolved_msg()))
    } else {
        match autostash {
            None => Outcome::Done(()),
            Some(l) => then(run_git(rs, c.1, dir, crate::stash::locate_args()), |o: Seq<char>| match crate::stash::locate_spec(o, l) {
                None => Outcome::Fail(ErrorV::Precondition(crate::stash::not_found_msg(l))),
                Some(r) => map_done(run_git(rs, c.1 + 1, dir, seq!["stash"@, "drop"@, r]), |x: Seq<char>| ()),
            }),
        }
    })
}

/// The plan of an update.
pub open spec fn plan_spec(rs: Seq<ReplyV>, dir: Seq<char>) -> Outcome<(Seq<char>, u32, u32, bool, bool)> {
    then(preflight_at(rs, 0, dir), |k1: int|
        then(require_upstream_at(rs, k1, dir), |u: (Seq<char>, int)|
            then(fetch_at(rs, u.1, dir, false), |k3: int|
                then(ahead_behind_at(rs, k3, dir), |ab: ((u32, u32), int)|
                    map_done(run_git(rs, ab.1, dir, crate::stash::porcelain_args()), |o: Seq<char>|
                        (u.0, ab.0.0, ab.0.1, ab.0.1 == 0, trim(o).len() > 0))))))
}

impl Repo {
    fn after_stash(&self, replies: &[Reply], k: usize, opts: &UpdateOptions, behind: u32, ahead: u32, autostash: Option<StashRef>, rollback: bool) -> (r: Step<UpdateOutcome>)
        ensures
            step_view(r, |o: UpdateOutcome| o.view()) == after_stash_at(replies_view(replies@), k as int, self.dir(), opts.strategy, opts.ignore_whitespace, opts.recurse_submodules, behind, ahead, opt_label(autostash), rollback),
    {
        let integ = if ahead == 0 {
            self.fast_forward(replies, k)
        } else {
            match opts.strategy {
                IntegrationStrategy::Merge => self.integrate(replies, k, merge_args_exec(opts.ignore_whitespace, "@{u}")),
                IntegrationStrategy::Rebase => self.integrate(replies, k, rebase_args_exec(opts.ignore_whitespace, "@{u}")),
            }
        };
        let (res, k2) = match integ {
            Flow::Ask(q) => {
                return Step::Ask(q);
            },
            Flow::Fail(e) => {
                return Step::Done(Err(e));
            },
            Flow::Got(p) => p,
        };
        match res {
            Err(cause) => self.recover(replies, k2, autostash, cause),
            Ok(true) => {
                let k5 = match self.auto_resolve_rerere(replies, k2) {
                    Flow::Ask(q) => {
                        return Step::Ask(q);
                    },
                    Flow::Fail(e) => {
                        return Step::Done(Err(e));
                    },
                    Flow::Got(n) => n,
                };
                match self.conflicted_at(replies, k5) {
                    Flow::Ask(q) => Step::Ask(q),
                    Flow::Fail(e) => Step::Done(Err(e)),
                    Flow::Got(files) => {
                        if files.len() == 0 {
                            self.continue_from_mode(replies, k5 + 1, autostash, opts.recurse_submodules, rollback)
                        } else {
                            self.on_conflicts(replies, k5 + 1, files, autostash, rollback)
                        }
                    },
                }
            },
            Ok(false) => {
                let done = if ahead == 0 {
                    UpdateOutcome::FastForwarded { commits: behind }
                } else {
                    UpdateOutcome::Integrated { commits: behind, strategy: opts.strategy }
                };
                self.finish(replies, k2, &autostash, opts.recurse_submodules, done)
            },
        }
    }

    /// A whole update from reply `k`; with `rollback`, conflicts are rolled back.
    fn execute_from(&self, replies: &[Reply], k: usize, opts: &UpdateOptions, rollback: bool) -> (r: Step<UpdateOutcome>)
        ensures
            step_view(r, |o: UpdateOutcome| o.view()) == execute_mode_at(replies_view(replies@), k as int, self.dir(), opts.strategy, opts.ignore_whitespace, opts.recurse_submodules, rollback),
    {
        let k1 = match self.preflight(replies, k) {
            Flow::Ask(q) => {
                return Step::Ask(q);
            },
            Flow::Fail(e) => {
                return Step::Done(Err(e));
            },
            Flow::Got(n) => n,
        };
        let (_, k2) = match self.require_upstream(replies, k1) {
            Flow::Ask(q) => {
                return Step::Ask(q);
            },
            Flow::Fail(e) => {
                return Step::Done(Err(e));
            },
            Flow::Got(p) => p,
        };
        let k3 = match self.fetch(replies, k2, opts.recurse_submodules) {
            Flow::Ask(q) => {
                return Step::Ask(q);
            },
            Flow::Fail(e) => {
                return Step::Done(Err(e));
            },
            Flow::Got(n) => n,
        };
        let ((behind, ahead), k4) = match self.ahead_behind(replies, k3) {
            Flow::Ask(q) => {
                return Step::Ask(q);
            },
            Flow::Fail(e) => {
                return Step::Done(Err(e));
            },
            Flow::Got(p) => p,
        };
        if behind == 0 {
            return Step::Done(Ok(UpdateOutcome::AlreadyUpToDate));
        }
        let pid = match crate::repo::pid_flow(replies, k4) {
            Flow::Ask(q) => {
                return Step::Ask(q);
            },
            Flow::Fail(e) => {
                return Step::Done(Err(e));
            },
            Flow::Got(n) => n,
        };
        let label = crate::stash::autostash_label(pid);
        let (autostash, k6) = match self.autostash_push(replies, k4 + 1, &label) {
            Flow::Ask(q) => {
                return Step::Ask(q);
            },
            Flow::Fail(e) => {
                return Step::Done(Err(e));
            },
            Flow::Got(p) => p,
        };
        self.after_stash(replies, k6, opts, behind, ahead, autostash, rollback)
    }

    /// Runs a whole update: stash a dirty tree, integrate the upstream, put the changes
    /// back. A cancelled fetch ends it before anything is touched.
    pub fn execute_update(&self, opts: &UpdateOptions, replies: &[Reply]) -> (r: Step<UpdateOutcome>)
        ensures
            step_view(r, |o: UpdateOutcome| o.view()) == execute_at(replies_view(replies@), 0, self.dir(), opts.strategy, opts.ignore_whitespace, opts.recurse_submodules),
    {
        self.execute_from(replies, 0, opts, false)
    }

    /// As `execute_update`; the fetch reports its progress (every fetch request is a
    /// streaming one, whose progress the caller shows or not).
    pub fn execute_update_streaming(&self, opts: &UpdateOptions, replies: &[Reply]) -> (r: Step<UpdateOutcome>)
        ensures
            step_view(r, |o: UpdateOutcome| o.view()) == execute_at(replies_view(replies@), 0, self.dir(), opts.strategy, opts.ignore_whitespace, opts.recurse_submodules),
    {
        self.execute_from(replies, 0, opts, false)
    }

    /// Completes the integration once its conflicts are resolved, and puts the automatic
    /// stash back.
    pub fn continue_update(&self, autostash: Option<StashRef>, recurse_submodules: bool, replies: &[Reply]) -> (r: Step<UpdateOutcome>)
        ensures
            step_view(r, |o: UpdateOutcome| o.view()) == continue_at(replies_view(replies@), 0, self.dir(), opt_label(autostash), recurse_submodules),
    {
        self.continue_from(replies, 0, autostash, recurse_submodules)
    }

    /// Gives the integration up and goes back to the state before it (the automatic stash
    /// is put back).
    pub fn abort_update(&self, autostash: Option<StashRef>, replies: &[Reply]) -> (r: Step<()>)
        ensures
            step_view(r, |u: ()| u) == abort_spec(replies_view(replies@), self.dir(), opt_label(autostash)),
    {
        let (kind, k2) = match self.in_progress(replies, 0) {
            Flow::Ask(q) => {
                return Step::Ask(q);
            },
            Flow::Fail(e) => {
                return Step::Done(Err(e));
            },
            Flow::Got(p) => p,
        };
        let k3 = match self.kind_cmd(replies, k2, kind, false) {
            Flow::Ask(q) => {
                return Step::Ask(q);
            },
            Flow::Fail(e) => {
                return Step::Done(Err(e));
            },
            Flow::Got(n) => n,
        };
        match autostash {
            None => Step::Done(Ok(())),
            Some(st) => match self.autostash_pop(replies, k3, &st) {
                Flow::Ask(q) => Step::Ask(q),
                Flow::Fail(e) => Step::Done(Err(e)),
                Flow::Got(_) => Step::Done(Ok(())),
            },
        }
    }

    /// Finds an interrupted integration: its conflicted files and the automatic stash.
    pub fn resume_conflicts(&self, replies: &[Reply]) -> (r: Step<Option<PendingConflicts>>)
        ensures
            step_view(r, |o: Option<PendingConflicts>| match o {
                Some(p) => Some((strs(p.files@), opt_label(p.autostash))),
                None => None,
            }) == resume_spec(replies_view(replies@), self.dir()),
    {
        let (kind, k2) = match self.in_progress(replies, 0) {
            Flow::Ask(q) => {
                return Step::Ask(q);
            },
            Flow::Fail(e) => {
                return Step::Done(Err(e));
            },
            Flow::Got(p) => p,
        };
        if kind.is_none() {
            return Step::Done(Ok(None));
        }
        let files = match self.conflicted_at(replies, k2) {
            Flow::Ask(q) => {
                return Step::Ask(q);
            },
            Flow::Fail(e) => {
                return Step::Done(Err(e));
            },
            Flow::Got(f) => f,
        };
        if files.len() == 0 {
            return Step::Done(Ok(None));
        }
        match self.find_autostash(replies, k2 + 1) {
            Flow::Ask(q) => Step::Ask(q),
            Flow::Fail(e) => Step::Done(Err(e)),
            Flow::Got((autostash, _)) => Step::Done(Ok(Some(PendingConflicts { files, autostash }))),
        }
    }

    fn pick(&self, replies: &[Reply], args: Vec<String>) -> (r: Step<UpdateOutcome>)
        ensures
            step_view(r, |o: UpdateOutcome| o.view()) == pick_spec(replies_view(replies@), self.dir(), strs(args@)),
    {
        let k1 = match self.preflight(replies, 0) {
            Flow::Ask(q) => {
                return Step::Ask(q);
            },
            Flow::Fail(e) => {
                return Step::Done(Err(e));
            },
            Flow::Got(n) => n,
        };
        let keep = crate::repo::copy_strings(&args);
        let o = match self.git_checked(replies, k1, args) {
            Flow::Ask(q) => {
                return Step::Ask(q);
            },
            Flow::Fail(e) => {
                return Step::Done(Err(e));
            },
            Flow::Got(o) => o,
        };
        if o.success {
            return Step::Done(Ok(UpdateOutcome::Resolved));
        }
        match self.conflicted_at(replies, k1 + 1) {
            Flow::Ask(q) => Step::Ask(q),
            Flow::Fail(e) => Step::Done(Err(e)),
            Flow::Got(files) => {
                if files.len() > 0 {
                    Step::Done(Ok(UpdateOutcome::Conflicted { files, autostash: None }))
                } else {
                    Step::Done(Err(Error::Git { args: keep, code: o.code, stderr: o.stderr }))
                }
            },
        }
    }

    /// Cherry-picks a commit onto the current branch.
    pub fn cherry_pick(&self, sha: &str, replies: &[Reply]) -> (r: Step<UpdateOutcome>)
        ensures
            step_view(r, |o: UpdateOutcome| o.view()) == pick_spec(replies_view(replies@), self.dir(), seq!["cherry-pick"@, sha@]),
    {
        let args = vec![s("cherry-pick"), s(sha)];
        assert(strs(args@) =~= seq!["cherry-pick"@, sha@]);
        self.pick(replies, args)
    }

    /// Reverts a commit (a new, inverse commit).
    pub fn revert(&self, sha: &str, replies: &[Reply]) -> (r: Step<UpdateOutcome>)
        ensures
            step_view(r, |o: UpdateOutcome| o.view()) == pick_spec(replies_view(replies@), self.dir(), seq!["revert"@, "--no-edit"@, sha@]),
    {
        let args = vec![s("revert"), s("--no-edit"), s(sha)];
        assert(strs(args@) =~= seq!["revert"@, "--no-edit"@, sha@]);
        self.pick(replies, args)
    }

    fn snapshot(&self, replies: &[Reply], k: usize) -> (r: Flow<(Option<StashRef>, usize)>)
        ensures
            flow_view(r, |p: (Option<StashRef>, usize)| (opt_label(p.0), p.1 as int)) == snapshot_at(replies_view(replies@), k as int, self.dir()),
    {
        let args = vec![s("status"), s("--porcelain")];
        assert(strs(args@) =~= crate::stash::porcelain_args());
        let o = match self.git(replies, k, args) {
            Flow::Ask(q) => {
                return Flow::Ask(q);
            },
            Flow::Fail(e) => {
                return Flow::Fail(e);
            },
            Flow::Got(o) => o,
        };
        if crate::text::trim_vec(&crate::text::chars_of(o.as_str())).len() == 0 {
            return Flow::Got((None, k + 1));
        }
        let pid = match crate::repo::pid_flow(replies, k + 1) {
            Flow::Ask(q) => {
                return Flow::Ask(q);
            },
            Flow::Fail(e) => {
                return Flow::Fail(e);
            },
            Flow::Got(n) => n,
        };
        let label = crate::stash::autostash_label(pid);
        self.autostash_push(replies, k + 2, &label)
    }

    fn branch_integration(&self, branch: &str, opts: &UpdateOptions, rebase: bool, replies: &[Reply]) -> (r: Step<UpdateOutcome>)
        ensures
            step_view(r, |o: UpdateOutcome| o.view()) == branch_integration_spec(replies_view(replies@), self.dir(), branch@, opts.ignore_whitespace, rebase),
    {
        let k1 = match self.preflight(replies, 0) {
            Flow::Ask(q) => {
                return Step::Ask(q);
            },
            Flow::Fail(e) => {
                return Step::Done(Err(e));
            },
            Flow::Got(n) => n,
        };
        let (autostash, k2) = match self.snapshot(replies, k1) {
            Flow::Ask(q) => {
                return Step::Ask(q);
            },
            Flow::Fail(e) => {
                return Step::Done(Err(e));
            },
            Flow::Got(p) => p,
        };
        let args = if rebase { rebase_args_exec(opts.ignore_whitespace, branch) } else { merge_args_exec(opts.ignore_whitespace, branch) };
        let (res, k3) = match self.integrate(replies, k2, args) {
            Flow::Ask(q) => {
                return Step::Ask(q);
            },
            Flow::Fail(e) => {
                return Step::Done(Err(e));
            },
            Flow::Got(p) => p,
        };
        match res {
            Err(e) => Step::Done(Err(e)),
            Ok(true) => {
                let k5 = match self.auto_resolve_rerere(replies, k3) {
                    Flow::Ask(q) => {
                        return Step::Ask(q);
                    },
                    Flow::Fail(e) => {
                        return Step::Done(Err(e));
                    },
                    Flow::Got(n) => n,
                };
                match self.conflicted_at(replies, k5) {
                    Flow::Ask(q) => Step::Ask(q),
                    Flow::Fail(e) => Step::Done(Err(e)),
                    Flow::Got(files) => {
                        if files.len() == 0 {
                            self.continue_from(replies, k5 + 1, autostash, false)
                        } else {
                            Step::Done(Ok(UpdateOutcome::Conflicted { files, autostash }))
                        }
                    },
                }
            },
            Ok(false) => match self.pop_opt(replies, k3, &autostash) {
                Flow::Ask(q) => Step::Ask(q),
                Flow::Fail(e) => Step::Done(Err(e)),
                Flow::Got((Some(files), _)) => Step::Done(Ok(UpdateOutcome::StashRestoreConflict { files })),
                Flow::Got((None, _)) => Step::Done(Ok(UpdateOutcome::Resolved)),
            },
        }
    }

    /// Merges another branch into the current one (a dirty tree is stashed around it).
    pub fn merge_branch(&self, branch: &str, opts: &UpdateOptions, replies: &[Reply]) -> (r: Step<UpdateOutcome>)
        ensures
            step_view(r, |o: UpdateOutcome| o.view()) == branch_integration_spec(replies_view(replies@), self.dir(), branch@, opts.ignore_whitespace, false),
    {
        self.branch_integration(branch, opts, false, replies)
    }

    /// Rebases the current branch onto another one (a dirty tree is stashed around it).
    pub fn rebase_branch(&self, branch: &str, opts: &UpdateOptions, replies: &[Reply]) -> (r: Step<UpdateOutcome>)
        ensures
            step_view(r, |o: UpdateOutcome| o.view()) == branch_integration_spec(replies_view(replies@), self.dir(), branch@, opts.ignore_whitespace, true),
    {
        self.branch_integration(branch, opts, true, replies)
    }

    /// Updates a submodule on its current branch (it stays on the branch).
    #[verifier::spinoff_prover]
    #[verifier::rlimit(60)]
    pub fn update_submodule_on_branch(&self, sub_path: &str, opts: &UpdateOptions, replies: &[Reply]) -> (r: Step<SubmoduleUpdate>)
        ensures
            step_view(r, |o: SubmoduleUpdate| o.view()) == sub_branch_spec(replies_view(replies@), self.dir(), sub_path@, opts.strategy, opts.ignore_whitespace),
    {
        let abs = crate::repo::join_any(self.workdir(), sub_path);
        let sub = Repo::at(abs.as_str());
        let a0 = vec![s("rev-parse"), s("--git-dir")];
        assert(strs(a0@) =~= git_dir_args());
        match sub.git(replies, 0, a0) {
            Flow::Ask(q) => {
                return Step::Ask(q);
            },
            Flow::Fail(e) => {
                return Step::Done(Err(e));
            },
            Flow::Got(_) => {},
        }
        let a1 = vec![s("rev-parse"), s("--abbrev-ref"), s("HEAD")];
        assert(strs(a1@) =~= head_args());
        let head = match sub.git(replies, 1, a1) {
            Flow::Ask(q) => {
                return Step::Ask(q);
            },
            Flow::Fail(e) => {
                return Step::Done(Err(e));
            },
            Flow::Got(h) => h,
        };
        let t = crate::text::trim_vec(&crate::text::chars_of(head.as_str()));
        if crate::text::eq_str(&t, "HEAD") {
            let a2 = vec![s("submodule"), s("update"), s("--init"), s("--"), s(sub_path)];
            assert(strs(a2@) =~= seq!["submodule"@, "update"@, "--init"@, "--"@, sub_path@]);
            return match self.git(replies, 2, a2) {
                Flow::Ask(q) => Step::Ask(q),
                Flow::Fail(e) => Step::Done(Err(e)),
                Flow::Got(_) => Step::Done(Ok(SubmoduleUpdate::SyncedToRecorded)),
            };
        }
        let a3 = vec![s("rev-parse"), s("--abbrev-ref"), s("--symbolic-full-name"), s("@{u}")];
        assert(strs(a3@) =~= upstream_args());
        match sub.git_checked(replies, 2, a3) {
            Flow::Ask(q) => {
                return Step::Ask(q);
            },
            Flow::Fail(e) => {
                return Step::Done(Err(e));
            },
            Flow::Got(u) => {
                if !u.success {
                    return Step::Done(Ok(SubmoduleUpdate::SkippedNoUpstream));
                }
            },
        }
        let sub_opts = UpdateOptions { strategy: opts.strategy, ignore_whitespace: opts.ignore_whitespace, recurse_submodules: false };
        match sub.execute_from(replies, 3, &sub_opts, true) {
            Step::Ask(q) => Step::Ask(q),
            Step::Done(Err(e)) => Step::Done(Err(e)),
            Step::Done(Ok(o)) => Step::Done(Ok(match o {
                UpdateOutcome::AlreadyUpToDate => SubmoduleUpdate::UpToDate,
                UpdateOutcome::FastForwarded { commits } => SubmoduleUpdate::Updated { commits },
                UpdateOutcome::Integrated { commits, .. } => SubmoduleUpdate::Updated { commits },
                UpdateOutcome::Resolved => SubmoduleUpdate::Updated { commits: 0 },
                UpdateOutcome::Conflicted { files, .. } => SubmoduleUpdate::Conflicted { repo_path: abs, files },
                UpdateOutcome::StashRestoreConflict { .. } => SubmoduleUpdate::StashConflict,
                UpdateOutcome::SubmoduleSyncFailed { .. } => SubmoduleUpdate::Updated { commits: 0 },
            })),
        }
    }

    /// The conflict state: the integration in progress, the classified conflicted files,
    /// the automatic stash left (always returned; no conflict gives no files).
    pub fn conflict_state(&self, replies: &[Reply]) -> (r: Step<ConflictState>)
        ensures
            step_view(r, |c: ConflictState| (c.integration, conflict_files_view(c.files@), opt_label(c.autostash))) == conflict_state_spec(replies_view(replies@), self.dir()),
    {
        let (integration, k1) = match self.in_progress(replies, 0) {
            Flow::Ask(q) => {
                return Step::Ask(q);
            },
            Flow::Fail(e) => {
                return Step::Done(Err(e));
            },
            Flow::Got(p) => p,
        };
        let (files, k2) = match self.classify_at(replies, k1) {
            Flow::Ask(q) => {
                return Step::Ask(q);
            },
            Flow::Fail(e) => {
                return Step::Done(Err(e));
            },
            Flow::Got(p) => p,
        };
        match self.find_autostash(replies, k2) {
            Flow::Ask(q) => Step::Ask(q),
            Flow::Fail(e) => Step::Done(Err(e)),
            Flow::Got((autostash, _)) => Step::Done(Ok(ConflictState { integration, files, autostash })),
        }
    }

    /// Finishes resolving a conflicting stash restore: with no conflict left, the stash
    /// (whose changes are in the working tree) is dropped.
    pub fn finish_stash_restore(&self, autostash: Option<StashRef>, replies: &[Reply]) -> (r: Step<()>)
        ensures
            step_view(r, |u: ()| u) == finish_restore_spec(replies_view(replies@), self.dir(), opt_label(autostash)),
    {
        let files = match self.conflicted_at(replies, 0) {
            Flow::Ask(q) => {
                return Step::Ask(q);
            },
            Flow::Fail(e) => {
                return Step::Done(Err(e));
            },
            Flow::Got(f) => f,
        };
        if files.len() > 0 {
            return Step::Done(Err(Error::precondition("仍有未解决的冲突文件,请先解决")));
        }
        let st = match autostash {
            None => {
                return Step::Done(Ok(()));
            },
            Some(st) => st,
        };
        let args = vec![s("stash"), s("list"), s("--format=%gd %gs")];
        assert(strs(args@) =~= crate::stash::locate_args());
        let o = match self.git(replies, 1, args) {
            Flow::Ask(q) => {
                return Step::Ask(q);
            },
            Flow::Fail(e) => {
                return Step::Done(Err(e));
            },
            Flow::Got(o) => o,
        };
        let reff = match crate::stash::locate_in(o.as_str(), st.label.as_str()) {
            None => {
                let mut m = crate::text::chars_of("找不到 autostash: ");
                crate::text::push_str(&mut m, st.label.as_str());
                return Step::Done(Err(Error::Precondition(crate::text::string_of(&m))));
            },
            Some(r) => r,
        };
        let args2 = vec![s("stash"), s("drop"), reff];
        assert(strs(args2@) =~= seq!["stash"@, "drop"@, args2@[2]@]);
        match self.git(replies, 2, args2) {
            Flow::Ask(q) => Step::Ask(q),
            Flow::Fail(e) => Step::Done(Err(e)),
            Flow::Got(_) => Step::Done(Ok(())),
        }
    }

    /// Gives up a conflicting stash restore: `reset --hard` back to the integrated state; the
    /// stash is kept, so the changes can be restored again.
    pub fn abort_stash_restore(&self, replies: &[Reply]) -> (r: Step<()>)
        ensures
            step_view(r, |u: ()| u) == crate::repo::unit_spec(replies_view(replies@), self.dir(), seq!["reset"@, "--hard"@]),
    {
        let args = vec![s("reset"), s("--hard")];
        assert(strs(args@) =~= seq!["reset"@, "--hard"@]);
        self.git_unit(replies, args)
    }

    /// A cancellable fetch with progress, which must succeed.
    pub fn fetch_streaming(&self, replies: &[Reply]) -> (r: Step<()>)
        ensures
            step_view(r, |u: ()| u) == map_done(fetch_at(replies_view(replies@), 0, self.dir(), false), |n: int| ()),
    {
        match self.fetch(replies, 0, false) {
            Flow::Ask(q) => Step::Ask(q),
            Flow::Fail(e) => Step::Done(Err(e)),
            Flow::Got(_) => Step::Done(Ok(())),
        }
    }

    /// What an update would do, after fetching and before touching anything.
    pub fn plan_update(&self, replies: &[Reply]) -> (r: Step<UpdatePlan>)
        ensures
            step_view(r, |p: UpdatePlan| (p.upstream@, p.behind, p.ahead, p.can_fast_forward, p.will_autostash)) == plan_spec(replies_view(replies@), self.dir()),
    {
        let k1 = match self.preflight(replies, 0) {
            Flow::Ask(q) => {
                return Step::Ask(q);
            },
            Flow::Fail(e) => {
                return Step::Done(Err(e));
            },
            Flow::Got(n) => n,
        };
        let (upstream, k2) = match self.require_upstream(replies, k1) {
            Flow::Ask(q) => {
                return Step::Ask(q);
            },
            Flow::Fail(e) => {
                return Step::Done(Err(e));
            },
            Flow::Got(p) => p,
        };
        let k3 = match self.fetch(replies, k2, false) {
            Flow::Ask(q) => {
                return Step::Ask(q);
            },
            Flow::Fail(e) => {
                return Step::Done(Err(e));
            },
            Flow::Got(n) => n,
        };
        let ((behind, ahead), k4) = match self.ahead_behind(replies, k3) {
            Flow::Ask(q) => {
                return Step::Ask(q);
            },
            Flow::Fail(e) => {
                return Step::Done(Err(e));
            },
            Flow::Got(p) => p,
        };
        let args = vec![s("status"), s("--porcelain")];
        assert(strs(args@) =~= crate::stash::porcelain_args());
        match self.git(replies, k4, args) {
            Flow::Ask(q) => Step::Ask(q),
            Flow::Fail(e) => Step::Done(Err(e)),
            Flow::Got(o) => {
                let dirty = crate::text::trim_vec(&crate::text::chars_of(o.as_str())).len() > 0;
                Step::Done(Ok(UpdatePlan { upstream, behind, ahead, can_fast_forward: ahead == 0, will_autostash: dirty }))
            },
        }
    }
}


// ───────────────────────── laws ─────────────────────────

/// Whether an outcome, when it stops for conflicts, names at least one conflicted file.
pub open spec fn stops_with_files(o: Outcome<UpdV>) -> bool {
    o matches Outcome::Done(UpdV::Conflicted(files, _)) ==> files.len() > 0
}

/// Whether an outcome, when it reports conflicts, keeps no stash.
pub open spec fn keeps_no_stash(o: Outcome<UpdV>) -> bool {
    o matches Outcome::Done(UpdV::Conflicted(_, st)) ==> st is None
}

proof fn lemma_then_done<A, B>(o: Outcome<A>, k: spec_fn(A) -> Outcome<B>)
    ensures
        then(o, k) is Done ==> o is Done && then(o, k) == k(o->Done_0),
{
}

proof fn lemma_finish_never_conflicted(rs: Seq<ReplyV>, k: int, dir: Seq<char>, autostash: Option<Seq<char>>, recurse: bool, done: UpdV)
    requires
        !(done is Conflicted),
    ensures
        !(finish_at(rs, k, dir, autostash, recurse, done) matches Outcome::Done(UpdV::Conflicted(_, _))),
{
    let ss = if recurse { sub_sync_at(rs, k, dir) } else { Outcome::Done((None, k)) };
    if ss is Done {
        let pp = pop_opt_at(rs, ss->Done_0.1, dir, autostash);
        lemma_then_done(pp, |pp: (Option<Seq<Seq<char>>>, int)| match pp.0 {
            Some(files) => Outcome::Done(UpdV::StashRestoreConflict(files)),
            None => match ss->Done_0.0 {
                Some(e) => Outcome::Done(UpdV::SubmoduleSyncFailed(error_text(e))),
                None => Outcome::<UpdV>::Done(done),
            },
        });
    }
}

proof fn lemma_recover_never_done(rs: Seq<ReplyV>, k: int, dir: Seq<char>, autostash: Option<Seq<char>>, cause: ErrorV)
    ensures
        !(recover_at(rs, k, dir, autostash, cause) is Done),
{
}

proof fn lemma_on_conflicts_stops_with_files(rs: Seq<ReplyV>, k: int, dir: Seq<char>, files: Seq<Seq<char>>, autostash: Option<Seq<char>>, rollback: bool)
    requires
        files.len() > 0,
    ensures
        stops_with_files(on_conflicts_at(rs, k, dir, files, autostash, rollback)),
        rollback ==> keeps_no_stash(on_conflicts_at(rs, k, dir, files, autostash, rollback)),
{
}

proof fn lemma_continue_stops_with_files(rs: Seq<ReplyV>, k: int, dir: Seq<char>, autostash: Option<Seq<char>>, recurse: bool, rollback: bool)
    ensures
        stops_with_files(continue_mode_at(rs, k, dir, autostash, recurse, rollback)),
        rollback ==> keeps_no_stash(continue_mode_at(rs, k, dir, autostash, recurse, rollback)),
{
    let c = conflicted_at(rs, k, dir);
    if c is Done && c->Done_0.0.len() > 0 {
        lemma_on_conflicts_stops_with_files(rs, c->Done_0.1, dir, c->Done_0.0, autostash, rollback);
    }
    if c is Done && c->Done_0.0.len() == 0 {
        let ip = in_progress_at(rs, c->Done_0.1, dir);
        if ip is Done {
            let kc = kind_cmd_at(rs, ip->Done_0.1, dir, ip->Done_0.0, true);
            if kc is Done {
                lemma_finish_never_conflicted(rs, kc->Done_0, dir, autostash, recurse, UpdV::Resolved);
            }
        }
    }
}

proof fn lemma_after_stash_stops_with_files(rs: Seq<ReplyV>, k: int, dir: Seq<char>, strategy: IntegrationStrategy, ign: bool, recurse: bool, behind: u32, ahead: u32, autostash: Option<Seq<char>>, rollback: bool)
    ensures
        stops_with_files(after_stash_at(rs, k, dir, strategy, ign, recurse, behind, ahead, autostash, rollback)),
        rollback ==> keeps_no_stash(after_stash_at(rs, k, dir, strategy, ign, recurse, behind, ahead, autostash, rollback)),
{
    let integ = if ahead == 0 {
        ff_at(rs, k, dir)
    } else if strategy == IntegrationStrategy::Merge {
        integrate_at(rs, k, dir, merge_args(ign, "@{u}"@))
    } else {
        integrate_at(rs, k, dir, rebase_args(ign, "@{u}"@))
    };
    if integ is Done {
        let ig = integ->Done_0;
        match ig.0 {
            Err(cause) => lemma_recover_never_done(rs, ig.1, dir, autostash, cause),
            Ok(true) => {
                let r5 = rerere_at(rs, ig.1, dir);
                if r5 is Done {
                    let c = conflicted_at(rs, r5->Done_0, dir);
                    if c is Done && c->Done_0.0.len() == 0 {
                        lemma_continue_stops_with_files(rs, c->Done_0.1, dir, autostash, recurse, rollback);
                    }
                    if c is Done && c->Done_0.0.len() > 0 {
                        lemma_on_conflicts_stops_with_files(rs, c->Done_0.1, dir, c->Done_0.0, autostash, rollback);
                    }
                }
            },
            Ok(false) => {
                lemma_finish_never_conflicted(rs, ig.1, dir, autostash, recurse, if ahead == 0 {
                    UpdV::FastForwarded(behind)
                } else {
                    UpdV::Integrated(behind, strategy)
                });
            },
        }
    }
}

/// An update stops for conflicts only when files are left in conflict: whatever git
/// answers, an update that reports `Conflicted` names at least one file.
pub proof fn law_update_stops_only_on_conflicts(rs: Seq<ReplyV>, dir: Seq<char>, strategy: IntegrationStrategy, ign: bool, recurse: bool)
    ensures
        stops_with_files(execute_at(rs, 0, dir, strategy, ign, recurse)),
{
    let k1 = preflight_at(rs, 0, dir);
    if k1 is Done {
        let u = require_upstream_at(rs, k1->Done_0, dir);
        if u is Done {
            let k3 = fetch_at(rs, u->Done_0.1, dir, recurse);
            if k3 is Done {
                let ab = ahead_behind_at(rs, k3->Done_0, dir);
                if ab is Done && ab->Done_0.0.0 != 0 {
                    let pid = run_pid(rs, ab->Done_0.1);
                    if pid is Done {
                        let st = autostash_push_at(rs, ab->Done_0.1 + 1, dir, autostash_label_spec(pid->Done_0));
                        if st is Done {
                            lemma_after_stash_stops_with_files(rs, st->Done_0.1, dir, strategy, ign, recurse,
                                ab->Done_0.0.0, ab->Done_0.0.1, st->Done_0.0, false);
                        }
                    }
                }
            }
        }
    }
}

/// An update that rolls its conflicts back (a submodule's own update) never stays
/// half-merged: whatever git answers, when it reports conflicts it names at least one file
/// and keeps no stash, the integration having been aborted and the stash put back.
pub proof fn law_rolled_back_update_keeps_no_stash(rs: Seq<ReplyV>, k: int, dir: Seq<char>, strategy: IntegrationStrategy, ign: bool, recurse: bool)
    ensures
        stops_with_files(execute_mode_at(rs, k, dir, strategy, ign, recurse, true)),
        keeps_no_stash(execute_mode_at(rs, k, dir, strategy, ign, recurse, true)),
{
    let k1 = preflight_at(rs, k, dir);
    if k1 is Done {
        let u = require_upstream_at(rs, k1->Done_0, dir);
        if u is Done {
            let k3 = fetch_at(rs, u->Done_0.1, dir, recurse);
            if k3 is Done {
                let ab = ahead_behind_at(rs, k3->Done_0, dir);
                if ab is Done && ab->Done_0.0.0 != 0 {
                    let pid = run_pid(rs, ab->Done_0.1);
                    if pid is Done {
                        let st = autostash_push_at(rs, ab->Done_0.1 + 1, dir, autostash_label_spec(pid->Done_0));
                        if st is Done {
                            lemma_after_stash_stops_with_files(rs, st->Done_0.1, dir, strategy, ign, recurse,
                                ab->Done_0.0.0, ab->Done_0.0.1, st->Done_0.0, true);
                        }
                    }
                }
            }
        }
    }
}

/// A failed integration never loses the automatic stash: the update reports the failure's
/// own cause only after the stash was put back cleanly; otherwise its error names the
/// stash so that it can be recovered by hand.
pub proof fn law_failed_update_restores_or_names_stash(rs: Seq<ReplyV>, k: int, dir: Seq<char>, label: Seq<char>, cause: ErrorV, e: ErrorV)
    requires
        recover_at(rs, k, dir, Some(label), cause) == Outcome::<UpdV>::Fail(e),
    ensures
        e == ErrorV::Precondition(strand_msg(label)) && crate::text::contains(strand_msg(label), label)
            || e == cause && exists|j: int| #[trigger] autostash_pop_at(rs, j, dir, label) matches Outcome::Done((PopV::Clean, _)),
{
    let pre = "整合失败且改动未能自动还原,已保留在 stash「"@;
    let post = "」,请手动 `git stash pop` 取回"@;
    assert(crate::text::contains_at(strand_msg(label), label, pre.len() as int)) by {
        assert((pre + label + post).subrange(pre.len() as int, (pre.len() + label.len()) as int) =~= label);
    }
    let aborted = then(in_progress_at(rs, k, dir), |ip: (Option<IntegrationKind>, int)| kind_cmd_at(rs, ip.1, dir, ip.0, false));
    if e != ErrorV::Precondition(strand_msg(label)) {
        let p = autostash_pop_at(rs, aborted->Done_0, dir, label);
        assert(p matches Outcome::Done((PopV::Clean, _)));
    }
}


/// Recovery after a crash reports an unfinished integration only when one is in progress
/// and files are still in conflict.
pub proof fn law_resume_reports_only_real_conflicts(rs: Seq<ReplyV>, dir: Seq<char>)
    ensures
        resume_spec(rs, dir) matches Outcome::Done(Some((files, _)))
            ==> files.len() > 0 && in_progress_at(rs, 0, dir) matches Outcome::Done((Some(_), _)),
{
    let ip = in_progress_at(rs, 0, dir);
    if ip is Done && ip->Done_0.0 is Some {
        let c = conflicted_at(rs, ip->Done_0.1, dir);
        if c is Done && c->Done_0.0.len() > 0 {
            let f = find_autostash_at(rs, c->Done_0.1, dir);
        }
    }
}

} // verus!
