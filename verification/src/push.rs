//! Pushing the current branch, and the push dialog's preview.
use vstd::prelude::*;
use crate::error::{Error, ErrorV};
use crate::log::LogEntry;
use crate::repo::{Repo, Reply, Step, Flow, Outcome, GitOutV, ReplyV, step_view, map_done, then, run_git, run_checked, git_reply, git_req, replies_view, strs, s};

verus! {

/// How a push ended.
#[derive(Debug, Clone, Copy, PartialEq, Eq, Structural)]
pub enum PushOutcome {
    Success,
    /// The branch has no upstream; the user has to set one.
    NoUpstream,
    /// Refused as not a fast-forward (the remote is ahead): pull first.
    NonFastForward,
}

/// The push dialog's preview: the upstream, and the commits that would be pushed.
#[derive(Debug, Clone)]
pub struct PushPreview {
    /// The upstream (`origin/main`); `None` when the branch has none.
    pub upstream: Option<String>,
    /// Commits ahead of the upstream (`@{u}..HEAD`), newest first.
    pub commits: Vec<LogEntry>,
}

pub open spec fn upstream_args() -> Seq<Seq<char>> {
    seq!["rev-parse"@, "--abbrev-ref"@, "@{u}"@]
}

/// A refused push: git's message mentions `rejected` or `non-fast-forward`, in any case
/// (both words hold no letter whose Unicode lowercase differs from its ASCII one).
pub open spec fn push_rejected(stderr: Seq<char>) -> bool {
    crate::text::contains(crate::text::lower(stderr), "rejected"@) || crate::text::contains(crate::text::lower(stderr), "non-fast-forward"@)
}

/// How a failed push is reported: a refusal, or the git error itself.
pub open spec fn push_result(o: GitOutV, args: Seq<Seq<char>>) -> Outcome<PushOutcome> {
    if o.success {
        Outcome::Done(PushOutcome::Success)
    } else if push_rejected(o.stderr) {
        Outcome::Done(PushOutcome::NonFastForward)
    } else {
        Outcome::Fail(ErrorV::Git(args, o.code, o.stderr))
    }
}

/// Pushing: no upstream means nothing is pushed; otherwise `git push`.
pub open spec fn push_spec(rs: Seq<ReplyV>, dir: Seq<char>) -> Outcome<PushOutcome> {
    then(run_checked(rs, 0, dir, upstream_args()), |u: GitOutV|
        if !u.success { Outcome::Done(PushOutcome::NoUpstream) } else {
            then(run_checked(rs, 1, dir, seq!["push"@]), |p: GitOutV| push_result(p, seq!["push"@]))
        })
}

pub open spec fn push_streaming_args(force_with_lease: bool) -> Seq<Seq<char>> {
    seq!["push"@, "--progress"@] + if force_with_lease { seq!["--force-with-lease"@] } else { Seq::empty() }
}

pub open spec fn push_streaming_spec(rs: Seq<ReplyV>, dir: Seq<char>, force_with_lease: bool) -> Outcome<PushOutcome> {
    then(run_checked(rs, 0, dir, upstream_args()), |u: GitOutV|
        if !u.success { Outcome::Done(PushOutcome::NoUpstream) } else {
            then(git_reply(rs, 1, git_req(dir, push_streaming_args(force_with_lease), Seq::empty(), None, true), false), |p: GitOutV| push_result(p, push_streaming_args(force_with_lease)))
        })
}

pub open spec fn preview_spec(rs: Seq<ReplyV>, dir: Seq<char>) -> Outcome<(Option<Seq<char>>, Seq<(Seq<char>, Seq<char>, Seq<char>, Seq<char>, Seq<char>)>)> {
    then(run_checked(rs, 0, dir, upstream_args()), |u: GitOutV|
        if !u.success { Outcome::Done((None, Seq::empty())) } else {
            map_done(run_git(rs, 1, dir, seq!["log"@, "--pretty=format:%H%x00%h%x00%s%x00%an%x00%ai"@, "@{u}..HEAD"@]), |o: Seq<char>| (Some(crate::text::trim(u.stdout)), crate::log::parse_log_spec(o)))
        })
}

fn rejected(stderr: &String) -> (r: bool)
    ensures
        r == push_rejected(stderr@),
{
    let low = crate::text::lower_vec(&crate::text::chars_of(stderr.as_str()));
    crate::text::contains_str(&low, "rejected") || crate::text::contains_str(&low, "non-fast-forward")
}

fn finish_push(o: GitOutput_, args: Vec<String>) -> (r: Step<PushOutcome>)
    ensures
        step_view(r, |p: PushOutcome| p) == push_result(o.view(), strs(args@)),
{
    if o.success {
        Step::Done(Ok(PushOutcome::Success))
    } else if rejected(&o.stderr) {
        Step::Done(Ok(PushOutcome::NonFastForward))
    } else {
        Step::Done(Err(Error::Git { args, code: o.code, stderr: o.stderr }))
    }
}

type GitOutput_ = crate::repo::GitOutput;

impl Repo {
    /// Pushes the current branch to its upstream.
    pub fn push(&self, replies: &[Reply]) -> (r: Step<PushOutcome>)
        ensures
            step_view(r, |p: PushOutcome| p) == push_spec(replies_view(replies@), self.dir()),
    {
        let a = vec![s("rev-parse"), s("--abbrev-ref"), s("@{u}")];
        assert(strs(a@) =~= upstream_args());
        match self.git_checked(replies, 0, a) {
            Flow::Ask(q) => {
                return Step::Ask(q);
            },
            Flow::Fail(e) => {
                return Step::Done(Err(e));
            },
            Flow::Got(u) => {
                if !u.success {
                    return Step::Done(Ok(PushOutcome::NoUpstream));
                }
            },
        }
        let p = vec![s("push")];
        assert(strs(p@) =~= seq!["push"@]);
        match self.git_checked(replies, 1, p) {
            Flow::Ask(q) => Step::Ask(q),
            Flow::Fail(e) => Step::Done(Err(e)),
            Flow::Got(o) => {
                let args = vec![s("push")];
                assert(strs(args@) =~= seq!["push"@]);
                finish_push(o, args)
            },
        }
    }

    /// Pushes with progress and cancellation; `force_with_lease` adds `--force-with-lease`.
    pub fn push_streaming(&self, force_with_lease: bool, replies: &[Reply]) -> (r: Step<PushOutcome>)
        ensures
            step_view(r, |p: PushOutcome| p) == push_streaming_spec(replies_view(replies@), self.dir(), force_with_lease),
    {
        let a = vec![s("rev-parse"), s("--abbrev-ref"), s("@{u}")];
        assert(strs(a@) =~= upstream_args());
        match self.git_checked(replies, 0, a) {
            Flow::Ask(q) => {
                return Step::Ask(q);
            },
            Flow::Fail(e) => {
                return Step::Done(Err(e));
            },
            Flow::Got(u) => {
                if !u.success {
                    return Step::Done(Ok(PushOutcome::NoUpstream));
                }
            },
        }
        let mut args = vec![s("push"), s("--progress")];
        if force_with_lease {
            args.push(s("--force-with-lease"));
        }
        assert(strs(args@) =~= push_streaming_args(force_with_lease));
        match self.git_streaming(replies, 1, args) {
            Flow::Ask(q) => Step::Ask(q),
            Flow::Fail(e) => Step::Done(Err(e)),
            Flow::Got(o) => {
                let mut args2 = vec![s("push"), s("--progress")];
                if force_with_lease {
                    args2.push(s("--force-with-lease"));
                }
                assert(strs(args2@) =~= push_streaming_args(force_with_lease));
                finish_push(o, args2)
            },
        }
    }

    /// The upstream and the commits `@{u}..HEAD` that a push would send.
    pub fn push_preview(&self, replies: &[Reply]) -> (r: Step<PushPreview>)
        ensures
            step_view(r, |p: PushPreview| (crate::repo::opt_str(p.upstream), crate::log::entries_view(p.commits@))) == preview_spec(replies_view(replies@), self.dir()),
    {
        let a = vec![s("rev-parse"), s("--abbrev-ref"), s("@{u}")];
        assert(strs(a@) =~= upstream_args());
        let up = match self.git_checked(replies, 0, a) {
            Flow::Ask(q) => {
                return Step::Ask(q);
            },
            Flow::Fail(e) => {
                return Step::Done(Err(e));
            },
            Flow::Got(u) => {
                if !u.success {
                    let r = PushPreview { upstream: None, commits: Vec::new() };
                    assert(crate::log::entries_view(r.commits@) =~= Seq::<(Seq<char>, Seq<char>, Seq<char>, Seq<char>, Seq<char>)>::empty());
                    return Step::Done(Ok(r));
                }
                u.stdout
            },
        };
        let upstream = crate::text::string_of(&crate::text::trim_vec(&crate::text::chars_of(up.as_str())));
        match self.rev_range("@{u}..HEAD", replies, 1) {
            Flow::Ask(q) => Step::Ask(q),
            Flow::Fail(e) => Step::Done(Err(e)),
            Flow::Got(commits) => Step::Done(Ok(PushPreview { upstream: Some(upstream), commits })),
        }
    }
}

} // verus!
