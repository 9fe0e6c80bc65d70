//! Resetting the branch, and undoing dangerous operations.
use vstd::prelude::*;
use crate::repo::{Repo, Reply, Step, Flow, Outcome, step_view, map_done, then, run_git, replies_view, strs, s, unit_spec};

verus! {

/// How `git reset` moves the branch.
#[derive(Debug, Clone, Copy, PartialEq, Eq, Structural)]
pub enum ResetMode {
    /// Keep the changes staged.
    Soft,
    /// Keep the changes in the working tree, unstaged (git's default).
    Mixed,
    /// Throw away staged and unstaged changes.
    Hard,
}

pub open spec fn mode_flag(m: ResetMode) -> Seq<char> {
    match m {
        ResetMode::Soft => "--soft"@,
        ResetMode::Mixed => "--mixed"@,
        ResetMode::Hard => "--hard"@,
    }
}

fn mode_flag_exec(m: ResetMode) -> (r: String)
    ensures
        r@ == mode_flag(m),
{
    match m {
        ResetMode::Soft => s("--soft"),
        ResetMode::Mixed => s("--mixed"),
        ResetMode::Hard => s("--hard"),
    }
}

/// How to undo a dangerous operation (held by the front end, used once).
#[derive(Debug, Clone)]
pub enum UndoAction {
    /// Undo a reset: back to the previous HEAD with the same mode.
    ResetTo { sha: String, mode: ResetMode },
    /// Undo a branch deletion: recreate it at its old tip.
    RestoreBranch { name: String, sha: String },
    /// Undo a stash drop: store the stash commit again.
    RestoreStash { sha: String, message: String },
    /// Undo a discard: apply its safety stash again (then drop it).
    RestoreDiscard { sha: String },
}

pub open spec fn reset_args(sha: Seq<char>, mode: ResetMode) -> Seq<Seq<char>> {
    seq!["reset"@, mode_flag(mode), sha]
}

/// The stash reference (`stash@{N}`) whose commit is `sha`, from `%gd\0%H` lines.
pub open spec fn stash_ref_scan(ls: Seq<Seq<char>>, sha: Seq<char>, n: int) -> Option<Seq<char>>
    decreases n,
{
    if n <= 0 {
        None
    } else {
        match stash_ref_scan(ls, sha, n - 1) {
            Some(r) => Some(r),
            None => {
                let l = ls[n - 1];
                let i = crate::text::index_of(l, '\0');
                if i < l.len() && l.skip(i + 1) == sha {
                    Some(l.take(i))
                } else {
                    None
                }
            },
        }
    }
}

pub open spec fn stash_ref_spec(out: Seq<char>, sha: Seq<char>) -> Option<Seq<char>> {
    let ls = crate::text::lines(out);
    stash_ref_scan(ls, sha, ls.len() as int)
}

fn find_stash_ref(out: &str, sha: &String) -> (r: Option<String>)
    ensures
        crate::repo::opt_str(r) == stash_ref_spec(out@, sha@),
{
    let ls = crate::text::lines_of(&crate::text::chars_of(out));
    let ghost lv = crate::text::views(ls@);
    let want = crate::text::chars_of(sha.as_str());
    let mut i: usize = 0;
    while i < ls.len()
        invariant
            i <= ls.len(),
            lv == crate::text::views(ls@),
            lv == crate::text::lines(out@),
            want@ == sha@,
            stash_ref_scan(lv, sha@, i as int) is None,
        decreases ls.len() - i,
    {
        let l = &ls[i];
        assert(lv[i as int] == l@);
        let j = crate::text::find_char_from(l, '\0', 0);
        proof {
            crate::text::lemma_index_of_from_bounds(l@, '\0', 0);
        }
        if j < l.len() {
            let h = crate::text::slice_vec(l, j + 1, l.len());
            assert(h@ =~= l@.skip(j + 1));
            if crate::text::eq_str(&h, sha.as_str()) {
                let r = crate::text::slice_vec(l, 0, j);
                assert(r@ =~= l@.take(j as int));
                proof {
                    lemma_stash_ref_stable(lv, sha@, i as int + 1, ls.len() as int);
                }
                return Some(crate::text::string_of(&r));
            }
        }
        i = i + 1;
    }
    None
}

proof fn lemma_stash_ref_stable(ls: Seq<Seq<char>>, sha: Seq<char>, k: int, n: int)
    requires
        0 <= k <= n,
        stash_ref_scan(ls, sha, k) is Some,
    ensures
        stash_ref_scan(ls, sha, n) == stash_ref_scan(ls, sha, k),
    decreases n - k,
{
    if n > k {
        lemma_stash_ref_stable(ls, sha, k, n - 1);
    }
}

/// What undoing does, per kind.
pub open spec fn undo_spec(rs: Seq<crate::repo::ReplyV>, dir: Seq<char>, a: UndoAction) -> Outcome<()> {
    match a {
        UndoAction::ResetTo { sha, mode } => unit_spec(rs, dir, reset_args(sha@, mode)),
        UndoAction::RestoreBranch { name, sha } => unit_spec(rs, dir, seq!["branch"@, name@, sha@]),
        UndoAction::RestoreStash { sha, message } => unit_spec(rs, dir, seq!["stash"@, "store"@, "-m"@, message@, sha@]),
        UndoAction::RestoreDiscard { sha } => then(run_git(rs, 0, dir, seq!["stash"@, "apply"@, sha@]), |a: Seq<char>|
            then(run_git(rs, 1, dir, seq!["stash"@, "list"@, "--pretty=format:%gd%x00%H"@]), |l: Seq<char>|
                match stash_ref_spec(l, sha@) {
                    Some(reff) => map_done(run_git(rs, 2, dir, seq!["stash"@, "drop"@, reff]), |o: Seq<char>| ()),
                    None => Outcome::Done(()),
                })),
    }
}

impl Repo {
    /// Resets the current branch to `sha`.
    pub fn reset(&self, sha: &str, mode: ResetMode, replies: &[Reply]) -> (r: Step<()>)
        ensures
            step_view(r, |u: ()| u) == unit_spec(replies_view(replies@), self.dir(), reset_args(sha@, mode)),
    {
        let args = vec![s("reset"), mode_flag_exec(mode), s(sha)];
        assert(strs(args@) =~= reset_args(sha@, mode));
        self.git_unit(replies, args)
    }

    /// Resets to `sha` and returns how to undo it (the previous HEAD, the same mode).
    pub fn reset_with_undo(&self, sha: &str, mode: ResetMode, replies: &[Reply]) -> (r: Step<UndoAction>)
        ensures
            step_view(r, |u: UndoAction| match u {
                UndoAction::ResetTo { sha, mode } => Some((sha@, mode)),
                _ => None,
            }) == then(run_git(replies_view(replies@), 0, self.dir(), seq!["rev-parse"@, "HEAD"@]), |prev: Seq<char>|
                map_done(run_git(replies_view(replies@), 1, self.dir(), reset_args(sha@, mode)), |o: Seq<char>| Some((crate::text::trim(prev), mode)))),
    {
        let args = vec![s("rev-parse"), s("HEAD")];
        assert(strs(args@) =~= seq!["rev-parse"@, "HEAD"@]);
        let prev = match self.git(replies, 0, args) {
            Flow::Ask(q) => {
                return Step::Ask(q);
            },
            Flow::Fail(e) => {
                return Step::Done(Err(e));
            },
            Flow::Got(o) => crate::text::string_of(&crate::text::trim_vec(&crate::text::chars_of(o.as_str()))),
        };
        let args2 = vec![s("reset"), mode_flag_exec(mode), s(sha)];
        assert(strs(args2@) =~= reset_args(sha@, mode));
        match self.git(replies, 1, args2) {
            Flow::Ask(q) => Step::Ask(q),
            Flow::Fail(e) => Step::Done(Err(e)),
            Flow::Got(_) => Step::Done(Ok(UndoAction::ResetTo { sha: prev, mode })),
        }
    }

    /// Undoes a dangerous operation.
    pub fn undo(&self, action: &UndoAction, replies: &[Reply]) -> (r: Step<()>)
        ensures
            step_view(r, |u: ()| u) == undo_spec(replies_view(replies@), self.dir(), *action),
    {
        match action {
            UndoAction::ResetTo { sha, mode } => self.reset(sha.as_str(), *mode, replies),
            UndoAction::RestoreBranch { name, sha } => {
                let args = vec![s("branch"), name.clone(), sha.clone()];
                assert(strs(args@) =~= seq!["branch"@, name@, sha@]);
                self.git_unit(replies, args)
            },
            UndoAction::RestoreStash { sha, message } => {
                let args = vec![s("stash"), s("store"), s("-m"), message.clone(), sha.clone()];
                assert(strs(args@) =~= seq!["stash"@, "store"@, "-m"@, message@, sha@]);
                self.git_unit(replies, args)
            },
            UndoAction::RestoreDiscard { sha } => {
                let a1 = vec![s("stash"), s("apply"), sha.clone()];
                assert(strs(a1@) =~= seq!["stash"@, "apply"@, sha@]);
                match self.git(replies, 0, a1) {
                    Flow::Ask(q) => {
                        return Step::Ask(q);
                    },
                    Flow::Fail(e) => {
                        return Step::Done(Err(e));
                    },
                    Flow::Got(_) => {},
                }
                let a2 = vec![s("stash"), s("list"), s("--pretty=format:%gd%x00%H")];
                assert(strs(a2@) =~= seq!["stash"@, "list"@, "--pretty=format:%gd%x00%H"@]);
                let list = match self.git(replies, 1, a2) {
                    Flow::Ask(q) => {
                        return Step::Ask(q);
                    },
                    Flow::Fail(e) => {
                        return Step::Done(Err(e));
                    },
                    Flow::Got(o) => o,
                };
                match find_stash_ref(list.as_str(), sha) {
                    Some(reff) => {
                        let a3 = vec![s("stash"), s("drop"), reff];
                        assert(strs(a3@) =~= seq!["stash"@, "drop"@, a3@[2]@]);
                        match self.git(replies, 2, a3) {
                            Flow::Ask(q) => Step::Ask(q),
                            Flow::Fail(e) => Step::Done(Err(e)),
                            Flow::Got(_) => Step::Done(Ok(())),
                        }
                    },
                    None => Step::Done(Ok(())),
                }
            },
        }
    }
}

} // verus!
