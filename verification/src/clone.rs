//! Cloning a repository from a URL (the working tree does not exist yet, so this is not an
//! operation of `Repo`), and checking that git is installed.
use vstd::prelude::*;
use crate::text::{trim, trim_end_char, ends_with};
use crate::error::{Error, ErrorV};
use crate::repo::{Repo, Reply, Request, RequestV, Step, Flow, Outcome, GitOutV, ReplyV, step_view, map_done, then, run_exists, io_reply, git_reply, git_req, replies_view, strs, s, join_path};

verus! {

/// The index of the last `/` or `:` in `s[..n]`, or -1.
pub open spec fn last_sep(s: Seq<char>, n: int) -> int
    decreases n,
{
    if n <= 0 {
        -1
    } else if s[n - 1] == '/' || s[n - 1] == ':' {
        n - 1
    } else {
        last_sep(s, n - 1)
    }
}

/// The directory name a clone of `url` gets: the last component of the URL (after the
/// last `/` or `:`, trailing slashes ignored) without `.git`; `repo` when that is empty.
pub open spec fn repo_name_spec(url: Seq<char>) -> Seq<char> {
    let t = trim_end_char(trim(url), '/');
    let last = t.skip(last_sep(t, t.len() as int) + 1);
    let name = if ends_with(last, ".git"@) { last.take(last.len() - 4) } else { last };
    if name.len() == 0 { "repo"@ } else { name }
}

/// The directory name a clone of `url` gets.
pub fn repo_name_from_url(url: &str) -> (r: String)
    ensures
        r@ == repo_name_spec(url@),
{
    proof {
        reveal_strlit(".git");
    }
    let t = crate::text::trim_end_char_vec(&crate::text::trim_vec(&crate::text::chars_of(url)), '/');
    let mut n = t.len();
    while n > 0 && t[n - 1] != '/' && t[n - 1] != ':'
        invariant
            n <= t.len(),
            last_sep(t@, t@.len() as int) == last_sep(t@, n as int),
        decreases n,
    {
        n = n - 1;
    }
    let last = crate::text::slice_vec(&t, n, t.len());
    assert(last@ =~= t@.skip(last_sep(t@, t@.len() as int) + 1));
    let name = if crate::text::ends_with_str(&last, ".git") {
        let v = crate::text::slice_vec(&last, 0, last.len() - 4);
        assert(v@ =~= last@.take(last@.len() - 4));
        v
    } else {
        last
    };
    if name.len() == 0 {
        s("repo")
    } else {
        crate::text::string_of(&name)
    }
}

pub open spec fn clone_args(url: Seq<char>, name: Seq<char>) -> Seq<Seq<char>> {
    seq!["clone"@, "--progress"@, url, name]
}

/// After a failed or cancelled clone (from reply `k`): a target directory that did not
/// exist before and exists now is removed (whatever that gives); `res` is the answer.
pub open spec fn cleanup_spec<A>(rs: Seq<ReplyV>, k: int, target: Seq<char>, preexisting: bool, res: Outcome<A>) -> Outcome<A> {
    if preexisting {
        res
    } else {
        match run_exists(rs, k, target) {
            Outcome::Ask(q) => Outcome::Ask(q),
            Outcome::Done(true) => match io_reply(rs, k + 1, RequestV::RemoveDirAll(target)) {
                Outcome::Ask(q) => Outcome::Ask(q),
                _ => res,
            },
            _ => res,
        }
    }
}

/// A clone of `url` under `parent`: the path of the new working tree.
pub open spec fn clone_spec(rs: Seq<ReplyV>, url: Seq<char>, parent: Seq<char>) -> Outcome<Seq<char>> {
    let name = repo_name_spec(url);
    let target = join_path(parent, name);
    then(run_exists(rs, 0, target), |pre: bool|
        match git_reply(rs, 1, git_req(parent, clone_args(url, name), Seq::empty(), None, true), false) {
            Outcome::Ask(q) => Outcome::Ask(q),
            Outcome::Done(o) => if o.success {
                Outcome::Done(target)
            } else {
                cleanup_spec(rs, 2, target, pre, Outcome::Fail(ErrorV::Git(seq!["clone"@, url], o.code, o.stderr)))
            },
            Outcome::Fail(e) => cleanup_spec(rs, 2, target, pre, Outcome::Fail(e)),
        })
}

fn cleanup_partial(replies: &[Reply], k: usize, target: &String, preexisting: bool, res: Error) -> (r: Step<String>)
    ensures
        step_view(r, |t: String| t@) == cleanup_spec(replies_view(replies@), k as int, target@, preexisting, Outcome::<Seq<char>>::Fail(res.view())),
{
    if preexisting {
        return Step::Done(Err(res));
    }
    match crate::repo::exists_flow(replies, k, target.clone()) {
        Flow::Ask(q) => Step::Ask(q),
        Flow::Got(true) => match crate::repo::io_flow(replies, k + 1, Request::RemoveDirAll(target.clone())) {
            Flow::Ask(q) => Step::Ask(q),
            _ => Step::Done(Err(res)),
        },
        _ => Step::Done(Err(res)),
    }
}

/// Clones `url` under `parent_dir` (the directory name comes from the URL) and returns the
/// new working tree's path. The clone is a streaming request: the runner may report git's
/// progress lines as they come, and may cancel it (a `Cancelled` reply, which ends the
/// clone as a failure). After a failure, a target directory that did not exist before is
/// removed.
pub fn clone_streaming(url: &str, parent_dir: &str, replies: &[Reply]) -> (r: Step<String>)
    ensures
        step_view(r, |t: String| t@) == clone_spec(replies_view(replies@), url@, parent_dir@),
{
    let name = repo_name_from_url(url);
    let parent = s(parent_dir);
    let target = crate::repo::join(&parent, name.as_str());
    let pre = match crate::repo::exists_flow(replies, 0, target.clone()) {
        Flow::Ask(q) => {
            return Step::Ask(q);
        },
        Flow::Fail(e) => {
            return Step::Done(Err(e));
        },
        Flow::Got(b) => b,
    };
    let args = vec![s("clone"), s("--progress"), s(url), name];
    assert(strs(args@) =~= clone_args(url@, repo_name_spec(url@)));
    let call = crate::repo::GitCall { dir: parent, args, env: Vec::new(), stdin: None, streaming: true };
    assert(call.view().env =~= Seq::<(Seq<char>, Seq<char>)>::empty());
    match crate::repo::git_flow(replies, 1, call, false) {
        Flow::Ask(q) => Step::Ask(q),
        Flow::Got(o) => {
            if o.success {
                Step::Done(Ok(target))
            } else {
                let ea = vec![s("clone"), s(url)];
                assert(strs(ea@) =~= seq!["clone"@, url@]);
                cleanup_partial(replies, 2, &target, pre, Error::Git { args: ea, code: o.code, stderr: o.stderr })
            }
        },
        Flow::Fail(e) => cleanup_partial(replies, 2, &target, pre, e),
    }
}

pub open spec fn not_installed_msg() -> Seq<char> {
    "git 未正确安装(非零退出)"@
}

pub open spec fn not_in_path_msg() -> Seq<char> {
    "git 不在 PATH 中,请安装 Git 并将其加入 PATH"@
}

/// Whether git is available: `git --version` must run and succeed.
pub open spec fn check_git_spec(rs: Seq<ReplyV>) -> Outcome<()> {
    if rs.len() == 0 {
        Outcome::Ask(RequestV::CheckGit)
    } else {
        match rs[0] {
            ReplyV::Git(o) => if o.success {
                Outcome::Done(())
            } else {
                Outcome::Fail(ErrorV::Io(not_installed_msg()))
            },
            _ => Outcome::Fail(ErrorV::Io(not_in_path_msg())),
        }
    }
}

impl Repo {
    /// Checks that git is on the PATH, with a readable error for the user when it is not.
    pub fn check_git(replies: &[Reply]) -> (r: Step<()>)
        ensures
            step_view(r, |u: ()| u) == check_git_spec(replies_view(replies@)),
    {
        if replies.len() == 0 {
            return Step::Ask(Request::CheckGit);
        }
        assert(replies_view(replies@)[0] == replies@[0].view());
        match &replies[0] {
            Reply::Git(o) => {
                if o.success {
                    Step::Done(Ok(()))
                } else {
                    Step::Done(Err(Error::Io(s("git 未正确安装(非零退出)"))))
                }
            },
            _ => Step::Done(Err(Error::Io(s("git 不在 PATH 中,请安装 Git 并将其加入 PATH")))),
        }
    }
}


// ───────────────────────── laws ─────────────────────────

/// A clone never removes a directory that was there before it started, whatever happens
/// to the clone.
pub proof fn law_clone_keeps_existing_directory(rs: Seq<ReplyV>, url: Seq<char>, parent: Seq<char>)
    requires
        rs.len() > 0,
        rs[0] == ReplyV::Bool(true),
    ensures
        clone_spec(rs, url, parent) != Outcome::<Seq<char>>::Ask(RequestV::RemoveDirAll(join_path(parent, repo_name_spec(url)))),
{
}

/// A clone that fails removes the directory it created.
pub proof fn law_failed_clone_removes_new_directory(url: Seq<char>, parent: Seq<char>, o: GitOutV)
    requires
        !o.success,
    ensures
        clone_spec(seq![ReplyV::Bool(false), ReplyV::Git(o), ReplyV::Bool(true)], url, parent)
            == Outcome::<Seq<char>>::Ask(RequestV::RemoveDirAll(join_path(parent, repo_name_spec(url)))),
{
}

} // verus!
