//! Staging and unstaging whole files, and discarding changes behind a safety stash.
use vstd::prelude::*;
use crate::error::{Error, ErrorV};
use crate::repo::{Repo, Reply, Step, Flow, Outcome, GitOutV, step_view, map_done, then, run_git, run_checked, replies_view, strs, s, push_all, unit_spec};
use crate::reset::UndoAction;

verus! {

/// Nothing to do for an empty path list; otherwise one git command.
pub open spec fn paths_spec(rs: Seq<crate::repo::ReplyV>, dir: Seq<char>, head: Seq<Seq<char>>, paths: Seq<Seq<char>>) -> Outcome<()> {
    if paths.len() == 0 {
        Outcome::Done(())
    } else {
        unit_spec(rs, dir, head + paths)
    }
}

pub open spec fn discard_args(paths: Seq<Seq<char>>) -> Seq<Seq<char>> {
    seq!["stash"@, "push"@, "--include-untracked"@, "-m"@, "GitSail discard 兜底"@, "--"@] + paths
}

/// Discarding: the changes go to a stash first. "No local changes" (in either stream)
/// means nothing was discarded; a successful stash is then named by its commit
/// (`refs/stash`), which undoes the discard.
pub open spec fn discard_spec(rs: Seq<crate::repo::ReplyV>, dir: Seq<char>, paths: Seq<Seq<char>>) -> Outcome<Option<Seq<char>>> {
    if paths.len() == 0 {
        Outcome::Done(None)
    } else {
        then(run_checked(rs, 0, dir, discard_args(paths)), |o: GitOutV|
            if crate::text::contains(o.stdout, "No local changes"@) || crate::text::contains(o.stderr, "No local changes"@) {
                Outcome::Done(None)
            } else if o.success {
                map_done(run_git(rs, 1, dir, seq!["rev-parse"@, "refs/stash"@]), |sha: Seq<char>| Some(crate::text::trim(sha)))
            } else {
                Outcome::Fail(ErrorV::Git(discard_args(paths), o.code, o.stderr))
            })
    }
}

impl Repo {
    /// Stages the given files.
    pub fn stage(&self, paths: &[String], replies: &[Reply]) -> (r: Step<()>)
        ensures
            step_view(r, |u: ()| u) == paths_spec(replies_view(replies@), self.dir(), seq!["add"@], strs(paths@)),
    {
        if paths.len() == 0 {
            return Step::Done(Ok(()));
        }
        let mut args = vec![s("add")];
        assert(strs(args@) =~= seq!["add"@]);
        push_all(&mut args, paths);
        self.git_unit(replies, args)
    }

    /// Unstages the given files.
    pub fn unstage(&self, paths: &[String], replies: &[Reply]) -> (r: Step<()>)
        ensures
            step_view(r, |u: ()| u) == paths_spec(replies_view(replies@), self.dir(), seq!["restore"@, "--staged"@], strs(paths@)),
    {
        if paths.len() == 0 {
            return Step::Done(Ok(()));
        }
        let mut args = vec![s("restore"), s("--staged")];
        assert(strs(args@) =~= seq!["restore"@, "--staged"@]);
        push_all(&mut args, paths);
        self.git_unit(replies, args)
    }

    /// Stages every change and untracked file.
    pub fn stage_all(&self, replies: &[Reply]) -> (r: Step<()>)
        ensures
            step_view(r, |u: ()| u) == unit_spec(replies_view(replies@), self.dir(), seq!["add"@, "."@]),
    {
        let args = vec![s("add"), s(".")];
        assert(strs(args@) =~= seq!["add"@, "."@]);
        self.git_unit(replies, args)
    }

    /// Unstages everything (the index goes back to HEAD, the working tree is untouched).
    pub fn unstage_all(&self, replies: &[Reply]) -> (r: Step<()>)
        ensures
            step_view(r, |u: ()| u) == unit_spec(replies_view(replies@), self.dir(), seq!["reset"@]),
    {
        let args = vec![s("reset")];
        assert(strs(args@) =~= seq!["reset"@]);
        self.git_unit(replies, args)
    }

    /// Discards the changes of the given files, stashing them first (they can be found
    /// again in the stash list). Returns how to undo it, or `None` when there was nothing
    /// to discard.
    pub fn discard(&self, paths: &[String], replies: &[Reply]) -> (r: Step<Option<UndoAction>>)
        ensures
            step_view(r, |u: Option<UndoAction>| match u {
                Some(UndoAction::RestoreDiscard { sha }) => Some(sha@),
                _ => None,
            }) == discard_spec(replies_view(replies@), self.dir(), strs(paths@)),
            match r {
                Step::Done(Ok(Some(a))) => a is RestoreDiscard,
                _ => true,
            },
    {
        if paths.len() == 0 {
            return Step::Done(Ok(None));
        }
        let mut args = vec![s("stash"), s("push"), s("--include-untracked"), s("-m"), s("GitSail discard 兜底"), s("--")];
        push_all(&mut args, paths);
        assert(strs(args@) =~= discard_args(strs(paths@)));
        let ghost av = strs(args@);
        let out = match self.git_checked(replies, 0, args) {
            Flow::Ask(q) => {
                return Step::Ask(q);
            },
            Flow::Fail(e) => {
                return Step::Done(Err(e));
            },
            Flow::Got(o) => o,
        };
        let so = crate::text::chars_of(out.stdout.as_str());
        let se = crate::text::chars_of(out.stderr.as_str());
        if crate::text::contains_str(&so, "No local changes") || crate::text::contains_str(&se, "No local changes") {
            return Step::Done(Ok(None));
        }
        if out.success {
            let args2 = vec![s("rev-parse"), s("refs/stash")];
            assert(strs(args2@) =~= seq!["rev-parse"@, "refs/stash"@]);
            match self.git(replies, 1, args2) {
                Flow::Ask(q) => Step::Ask(q),
                Flow::Fail(e) => Step::Done(Err(e)),
                Flow::Got(o) => {
                    let sha = crate::text::string_of(&crate::text::trim_vec(&crate::text::chars_of(o.as_str())));
                    Step::Done(Ok(Some(UndoAction::RestoreDiscard { sha })))
                },
            }
        } else {
            let mut args3 = vec![s("stash"), s("push"), s("--include-untracked"), s("-m"), s("GitSail discard 兜底"), s("--")];
            push_all(&mut args3, paths);
            assert(strs(args3@) =~= discard_args(strs(paths@)));
            Step::Done(Err(Error::Git { args: args3, code: out.code, stderr: out.stderr }))
        }
    }
}

} // verus!
