//! Committing.
use vstd::prelude::*;
use crate::error::{Error, ErrorV};
use crate::repo::{Repo, Reply, Step, Flow, Outcome, GitOutV, ReplyV, step_view, map_done, then, run_git, run_checked, replies_view, strs, s, push_all};

verus! {

/// Commit options.
#[derive(Debug, Clone)]
pub struct CommitOptions {
    pub message: String,
    pub allow_empty: bool,
    /// Amend the last commit instead of creating one.
    pub amend: bool,
    /// Skip the hooks (`--no-verify`).
    pub skip_hooks: bool,
}

impl Default for CommitOptions {
    fn default() -> (r: Self)
        ensures
            r.message@ == Seq::<char>::empty(),
            !r.allow_empty && !r.amend && !r.skip_hooks,
    {
        CommitOptions { message: String::new(), allow_empty: false, amend: false, skip_hooks: false }
    }
}

pub open spec fn commit_args(message: Seq<char>, amend: bool, allow_empty: bool, skip_hooks: bool) -> Seq<Seq<char>> {
    seq!["commit"@, "-m"@, message] + (if amend { seq!["--amend"@] } else { Seq::empty() })
        + (if allow_empty { seq!["--allow-empty"@] } else { Seq::empty() }) + (if skip_hooks { seq!["--no-verify"@] } else { Seq::empty() })
}

pub open spec fn short_head_args() -> Seq<Seq<char>> {
    seq!["rev-parse"@, "--short=8"@, "HEAD"@]
}

/// Committing: unless empty commits are allowed or the last commit is amended, an empty
/// index is refused (`git diff --cached --quiet` succeeds exactly when nothing is
/// staged); then the commit; then the first 8 characters of the new HEAD's SHA.
pub open spec fn commit_spec(rs: Seq<ReplyV>, dir: Seq<char>, message: Seq<char>, allow_empty: bool, amend: bool, skip_hooks: bool) -> Outcome<Seq<char>> {
    let check = !allow_empty && !amend;
    let k: int = if check { 1 } else { 0 };
    let pre: Outcome<()> = if check {
        then(run_checked(rs, 0, dir, seq!["diff"@, "--cached"@, "--quiet"@]), |c: GitOutV|
            if c.success { Outcome::Fail(ErrorV::Precondition("暂存区为空,无内容可提交"@)) } else { Outcome::Done(()) })
    } else {
        Outcome::Done(())
    };
    then(pre, |u: ()| then(run_git(rs, k, dir, commit_args(message, amend, allow_empty, skip_hooks)), |o: Seq<char>|
        map_done(run_git(rs, k + 1, dir, short_head_args()), |sha: Seq<char>| short_sha(sha))))
}

/// The first 8 characters of the trimmed `rev-parse --short=8` output (git prints more
/// where 8 would be ambiguous).
pub open spec fn short_sha(out: Seq<char>) -> Seq<char> {
    let t = crate::text::trim(out);
    if t.len() <= 8 { t } else { t.take(8) }
}

/// Committing given paths only: `git add -- <paths>`, then `git commit -- <paths>`, then
/// the first 8 characters of the new HEAD's SHA. An empty path list is refused.
pub open spec fn commit_paths_spec(rs: Seq<ReplyV>, dir: Seq<char>, message: Seq<char>, paths: Seq<Seq<char>>, skip_hooks: bool) -> Outcome<Seq<char>> {
    if paths.len() == 0 {
        Outcome::Fail(ErrorV::Precondition("没有要提交的文件"@))
    } else {
        then(run_git(rs, 0, dir, seq!["add"@, "--"@] + paths), |a: Seq<char>|
            then(run_git(rs, 1, dir, seq!["commit"@, "-m"@, message] + (if skip_hooks { seq!["--no-verify"@] } else { Seq::empty() }) + seq!["--"@] + paths), |c: Seq<char>|
                map_done(run_git(rs, 2, dir, short_head_args()), |sha: Seq<char>| short_sha(sha))))
    }
}

fn short_of(x: &String) -> (r: String)
    ensures
        r@ == short_sha(x@),
{
    let mut t = crate::text::trim_vec(&crate::text::chars_of(x.as_str()));
    t.truncate(8);
    assert(t@ =~= short_sha(x@));
    crate::text::string_of(&t)
}

impl Repo {
    /// Creates a commit and returns the first 8 characters of its SHA.
    pub fn commit(&self, opts: &CommitOptions, replies: &[Reply]) -> (r: Step<String>)
        ensures
            step_view(r, |t: String| t@) == commit_spec(replies_view(replies@), self.dir(), opts.message@, opts.allow_empty, opts.amend, opts.skip_hooks),
    {
        let mut k: usize = 0;
        if !opts.allow_empty && !opts.amend {
            let check = vec![s("diff"), s("--cached"), s("--quiet")];
            assert(strs(check@) =~= seq!["diff"@, "--cached"@, "--quiet"@]);
            match self.git_checked(replies, 0, check) {
                Flow::Ask(q) => {
                    return Step::Ask(q);
                },
                Flow::Fail(e) => {
                    return Step::Done(Err(e));
                },
                Flow::Got(c) => {
                    if c.success {
                        return Step::Done(Err(Error::precondition("暂存区为空,无内容可提交")));
                    }
                },
            }
            k = 1;
        }
        let mut args = vec![s("commit"), s("-m"), opts.message.clone()];
        if opts.amend {
            args.push(s("--amend"));
        }
        if opts.allow_empty {
            args.push(s("--allow-empty"));
        }
        if opts.skip_hooks {
            args.push(s("--no-verify"));
        }
        assert(strs(args@) =~= commit_args(opts.message@, opts.amend, opts.allow_empty, opts.skip_hooks));
        match self.git(replies, k, args) {
            Flow::Ask(q) => {
                return Step::Ask(q);
            },
            Flow::Fail(e) => {
                return Step::Done(Err(e));
            },
            Flow::Got(_) => {},
        }
        let a2 = vec![s("rev-parse"), s("--short=8"), s("HEAD")];
        assert(strs(a2@) =~= short_head_args());
        match self.git(replies, k + 1, a2) {
            Flow::Ask(q) => Step::Ask(q),
            Flow::Fail(e) => Step::Done(Err(e)),
            Flow::Got(sha) => Step::Done(Ok(short_of(&sha))),
        }
    }

    /// Commits only the given paths (their working-tree content), leaving other staged
    /// changes alone; returns the first 8 characters of the new SHA.
    pub fn commit_paths(&self, message: &str, paths: &[String], skip_hooks: bool, replies: &[Reply]) -> (r: Step<String>)
        ensures
            step_view(r, |t: String| t@) == commit_paths_spec(replies_view(replies@), self.dir(), message@, strs(paths@), skip_hooks),
    {
        if paths.len() == 0 {
            return Step::Done(Err(Error::precondition("没有要提交的文件")));
        }
        let mut add = vec![s("add"), s("--")];
        assert(strs(add@) =~= seq!["add"@, "--"@]);
        push_all(&mut add, paths);
        match self.git(replies, 0, add) {
            Flow::Ask(q) => {
                return Step::Ask(q);
            },
            Flow::Fail(e) => {
                return Step::Done(Err(e));
            },
            Flow::Got(_) => {},
        }
        let mut args = vec![s("commit"), s("-m"), s(message)];
        if skip_hooks {
            args.push(s("--no-verify"));
        }
        args.push(s("--"));
        assert(strs(args@) =~= seq!["commit"@, "-m"@, message@] + (if skip_hooks { seq!["--no-verify"@] } else { Seq::empty() }) + seq!["--"@]);
        push_all(&mut args, paths);
        match self.git(replies, 1, args) {
            Flow::Ask(q) => {
                return Step::Ask(q);
            },
            Flow::Fail(e) => {
                return Step::Done(Err(e));
            },
            Flow::Got(_) => {},
        }
        let a2 = vec![s("rev-parse"), s("--short=8"), s("HEAD")];
        assert(strs(a2@) =~= short_head_args());
        match self.git(replies, 2, a2) {
            Flow::Ask(q) => Step::Ask(q),
            Flow::Fail(e) => Step::Done(Err(e)),
            Flow::Got(sha) => Step::Done(Ok(short_of(&sha))),
        }
    }
}

} // verus!
