//! Removing untracked files (`git clean`), with a preview.
//!
//! `LC_ALL=C` and `core.quotepath=false` keep git's `Would remove` lines in English and
//! its paths unescaped, so that the lines can be read. `-x` is never passed: ignored files
//! are not cleaned. Git names an untracked directory once (`d/`); the files under it are
//! counted from `git ls-files --others --exclude-standard` before it is removed.
use vstd::prelude::*;
use crate::text::{trim, starts_with, ends_with, lines};
use crate::repo::{Repo, Reply, Step, Flow, Outcome, GitOutV, ReplyV, step_view, map_done, then, run_git, git_reply, git_req, replies_view, strs, s};
use crate::conflict::conflicted_list;

verus! {

pub open spec fn clean_args(flag: Seq<char>, directories: bool) -> Seq<Seq<char>> {
    seq!["-c"@, "core.quotepath=false"@, "clean"@, flag] + if directories { seq!["-d"@] } else { Seq::empty() }
}

pub open spec fn c_locale() -> Seq<(Seq<char>, Seq<char>)> {
    seq![("LC_ALL"@, "C"@)]
}

/// The paths of the `Would remove <path>` lines (each line and path trimmed).
pub open spec fn would_remove_scan(ls: Seq<Seq<char>>, n: int) -> Seq<Seq<char>>
    decreases n,
{
    if n <= 0 {
        Seq::empty()
    } else {
        let t = trim(ls[n - 1]);
        would_remove_scan(ls, n - 1) + if starts_with(t, "Would remove "@) {
            seq![trim(t.skip(("Would remove "@).len() as int))]
        } else {
            Seq::empty()
        }
    }
}

pub open spec fn would_remove(out: Seq<char>) -> Seq<Seq<char>> {
    let ls = lines(out);
    would_remove_scan(ls, ls.len() as int)
}

pub fn parse_would_remove(out: &str) -> (r: Vec<String>)
    ensures
        strs(r@) == would_remove(out@),
{
    let ls = crate::text::lines_of(&crate::text::chars_of(out));
    let ghost lv = crate::text::views(ls@);
    let mut r: Vec<String> = Vec::new();
    let mut i: usize = 0;
    assert(strs(r@) =~= would_remove_scan(lv, 0));
    while i < ls.len()
        invariant
            i <= ls.len(),
            lv == crate::text::views(ls@),
            lv == lines(out@),
            strs(r@) == would_remove_scan(lv, i as int),
        decreases ls.len() - i,
    {
        assert(lv[i as int] == ls@[i as int]@);
        let t = crate::text::trim_vec(&ls[i]);
        match crate::text::strip_prefix_str(&t, "Would remove ") {
            Some(p) => {
                let ghost before = strs(r@);
                let x = crate::text::string_of(&crate::text::trim_vec(&p));
                r.push(x);
                assert(strs(r@) =~= before.push(x@));
            },
            None => {},
        }
        i = i + 1;
    }
    r
}

fn clean_call(flag: &str, directories: bool) -> (r: (Vec<String>, Vec<(String, String)>))
    ensures
        strs(r.0@) == clean_args(flag@, directories),
        crate::repo::env_view(r.1@) == c_locale(),
{
    let mut args = vec![s("-c"), s("core.quotepath=false"), s("clean"), s(flag)];
    if directories {
        args.push(s("-d"));
    }
    assert(strs(args@) =~= clean_args(flag@, directories));
    let env = vec![(s("LC_ALL"), s("C"))];
    assert(crate::repo::env_view(env@) =~= c_locale());
    (args, env)
}

/// `git ls-files` of the untracked, non-ignored files under `d`, one per line.
pub open spec fn untracked_under_args(d: Seq<char>) -> Seq<Seq<char>> {
    seq!["-c"@, "core.quotepath=false"@, "ls-files"@, "--others"@, "--exclude-standard"@, "--"@, d]
}

/// `a + b`, held at `usize::MAX`.
pub open spec fn add_capped(a: nat, b: nat) -> nat {
    if a + b > usize::MAX { usize::MAX as nat } else { a + b }
}

/// Counting the files of the paths `ps[i..]` a dry run reported, from reply `k`, onto
/// `acc`: a file counts one; a directory (a path ending in `/`) counts the files git lists
/// under it (one per non-blank line). The count and the next reply's index.
pub open spec fn count_files_at(rs: Seq<ReplyV>, k: int, dir: Seq<char>, ps: Seq<Seq<char>>, i: int, acc: nat) -> Outcome<(nat, int)>
    decreases ps.len() - i,
{
    if i < 0 || i >= ps.len() {
        Outcome::Done((acc, k))
    } else if ends_with(ps[i], "/"@) {
        match run_git(rs, k, dir, untracked_under_args(ps[i])) {
            Outcome::Ask(q) => Outcome::Ask(q),
            Outcome::Fail(e) => Outcome::Fail(e),
            Outcome::Done(o) => count_files_at(rs, k + 1, dir, ps, i + 1, add_capped(acc, conflicted_list(o).len())),
        }
    } else {
        count_files_at(rs, k, dir, ps, i + 1, add_capped(acc, 1))
    }
}

/// Cleaning: a dry run (`clean -n`) names what will go; the files under each named
/// directory are listed; then `clean -f` removes them. The result is the number of files
/// removed (at most `usize::MAX`).
pub open spec fn clean_force_spec(rs: Seq<ReplyV>, dir: Seq<char>, directories: bool) -> Outcome<nat> {
    then(git_reply(rs, 0, git_req(dir, clean_args("-n"@, directories), c_locale(), None, false), true), |o: GitOutV|
        then(count_files_at(rs, 1, dir, would_remove(o.stdout), 0, 0), |c: (nat, int)| clean_rest(rs, dir, directories, c)))
}

/// The removal itself (`clean -f`, reply `c.1`) once `c.0` files were counted.
pub open spec fn clean_rest(rs: Seq<ReplyV>, dir: Seq<char>, directories: bool, c: (nat, int)) -> Outcome<nat> {
    map_done(git_reply(rs, c.1, git_req(dir, clean_args("-f"@, directories), c_locale(), None, false), true), |f: GitOutV| c.0)
}

impl Repo {
    /// The untracked files `git clean` would remove (a dry run); `directories` adds `-d`.
    pub fn clean_preview(&self, directories: bool, replies: &[Reply]) -> (r: Step<Vec<String>>)
        ensures
            step_view(r, |v: Vec<String>| strs(v@)) == map_done(
                git_reply(replies_view(replies@), 0, git_req(self.dir(), clean_args("-n"@, directories), c_locale(), None, false), true),
                |o: GitOutV| would_remove(o.stdout),
            ),
    {
        let (args, env) = clean_call("-n", directories);
        match self.git_env(replies, 0, args, env) {
            Flow::Ask(q) => Step::Ask(q),
            Flow::Fail(e) => Step::Done(Err(e)),
            Flow::Got(o) => Step::Done(Ok(parse_would_remove(o.as_str()))),
        }
    }

    /// Removes the untracked files (with `directories`, the untracked directories too) and
    /// returns the number of files removed: a directory removed whole counts the files that
    /// were under it.
    pub fn clean_force(&self, directories: bool, replies: &[Reply]) -> (r: Step<usize>)
        ensures
            step_view(r, |n: usize| n as nat) == clean_force_spec(replies_view(replies@), self.dir(), directories),
    {
        let ghost rv = replies_view(replies@);
        let (args, env) = clean_call("-n", directories);
        let out = match self.git_env(replies, 0, args, env) {
            Flow::Ask(q) => {
                return Step::Ask(q);
            },
            Flow::Fail(e) => {
                return Step::Done(Err(e));
            },
            Flow::Got(o) => o,
        };
        let paths = parse_would_remove(out.as_str());
        let ghost ps = strs(paths@);
        proof {
            let g = git_reply(rv, 0, git_req(self.dir(), clean_args("-n"@, directories), c_locale(), None, false), true);
            assert(g is Done && g->Done_0.stdout == out@);
        }
        let mut total: usize = 0;
        let mut k: usize = 1;
        let mut i: usize = 0;
        while i < paths.len()
            invariant
                i <= paths.len(),
                1 <= k <= replies.len() + 1,
                ps == strs(paths@),
                rv == replies_view(replies@),
                count_files_at(rv, 1, self.dir(), ps, 0, 0) == count_files_at(rv, k as int, self.dir(), ps, i as int, total as nat),
                clean_force_spec(rv, self.dir(), directories) == then(count_files_at(rv, 1, self.dir(), ps, 0, 0), |c: (nat, int)| clean_rest(rv, self.dir(), directories, c)),
            decreases paths.len() - i,
        {
            assert(ps[i as int] == paths@[i as int]@);
            let pc = crate::text::chars_of(paths[i].as_str());
            if crate::text::ends_with_str(&pc, "/") {
                let a = vec![s("-c"), s("core.quotepath=false"), s("ls-files"), s("--others"), s("--exclude-standard"), s("--"), paths[i].clone()];
                assert(strs(a@) =~= untracked_under_args(ps[i as int]));
                match self.git(replies, k, a) {
                    Flow::Ask(q) => {
                        return Step::Ask(q);
                    },
                    Flow::Fail(e) => {
                        return Step::Done(Err(e));
                    },
                    Flow::Got(o) => {
                        let n = crate::conflict::parse_conflicted(o.as_str()).len();
                        total = total.saturating_add(n);
                        k = k + 1;
                    },
                }
            } else {
                total = total.saturating_add(1);
            }
            i = i + 1;
        }
        let (args2, env2) = clean_call("-f", directories);
        match self.git_env(replies, k, args2, env2) {
            Flow::Ask(q) => Step::Ask(q),
            Flow::Fail(e) => Step::Done(Err(e)),
            Flow::Got(_) => Step::Done(Ok(total)),
        }
    }
}

} // verus!
