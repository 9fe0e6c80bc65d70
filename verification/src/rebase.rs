//! Interactive rebase, driven without an editor: the edited plan is compiled into the
//! todo list of `git rebase -i`, which `sequence.editor=cp` copies over git's own.
//! Rewording and squashing do not use `reword` (which would open an editor) but
//! `pick`/`fixup` followed by `exec git commit --amend -F <file>`, the message being
//! written to a file whose name the library chooses: no user text reaches a shell.
use vstd::prelude::*;
use crate::error::{Error, ErrorV};
use crate::text::{trim, decimal};
use crate::repo::{Repo, Reply, Request, RequestV, Step, Flow, Outcome, GitOutV, ReplyV, step_view, flow_view, map_done, then, run_git, run_checked, run_effect, io_reply, replies_view, strs, s};
use crate::update::{UpdateOutcome, UpdV, IntegrationKind, preflight_at, git_dir_at, rerere_at, in_progress_at, continue_at};
use crate::conflict::conflicted_at;
use crate::log::{LogEntry, entries_view, parse_log_spec};

verus! {

/// What to do with one commit of an interactive rebase.
#[derive(Debug, Clone)]
pub enum RebaseAction {
    /// Keep the commit.
    Pick,
    /// Keep the commit with a new message.
    Reword(String),
    /// Fold into the previous kept commit, the result taking the given message.
    Squash(String),
    /// Fold into the previous kept commit, keeping that commit's message.
    Fixup,
    /// Drop the commit.
    Drop,
}

/// One entry of the plan: a commit and its action.
#[derive(Debug, Clone)]
pub struct RebaseItem {
    /// Full SHA of the commit.
    pub sha: String,
    pub action: RebaseAction,
}

pub enum ActionV {
    Pick,
    Reword(Seq<char>),
    Squash(Seq<char>),
    Fixup,
    Drop,
}

impl RebaseItem {
    pub open spec fn view(&self) -> (Seq<char>, ActionV) {
        (self.sha@, match self.action {
            RebaseAction::Pick => ActionV::Pick,
            RebaseAction::Reword(m) => ActionV::Reword(m@),
            RebaseAction::Squash(m) => ActionV::Squash(m@),
            RebaseAction::Fixup => ActionV::Fixup,
            RebaseAction::Drop => ActionV::Drop,
        })
    }
}

pub open spec fn items_view(v: Seq<RebaseItem>) -> Seq<(Seq<char>, ActionV)> {
    v.map_values(|i: RebaseItem| i.view())
}

/// The todo text so far, the message files to write, and whether a kept commit exists
/// that `fixup`/`squash` can fold into.
pub struct TodoV {
    pub todo: Seq<char>,
    pub msgs: Seq<(Seq<char>, Seq<char>)>,
    pub foldable: bool,
}

/// `Path::join` of a relative file name.
pub open spec fn join_path(dir: Seq<char>, name: Seq<char>) -> Seq<char> {
    if dir.len() == 0 {
        name
    } else if dir.last() == '/' {
        dir + name
    } else {
        dir + seq!['/'] + name
    }
}

pub open spec fn no_fold_target_msg() -> Seq<char> {
    "第一个保留的提交不能是 squash/fixup(没有可折叠的上一个提交)"@
}

/// `<verb> <sha>` followed by `exec git commit --amend -F '<file>'`, the message going to
/// a new file `msg-<n>` in `dir`; an empty (blank) message is refused.
pub open spec fn amend_spec(st: TodoV, dir: Seq<char>, verb: Seq<char>, sha: Seq<char>, msg: Seq<char>) -> Result<TodoV, ErrorV> {
    if trim(msg).len() == 0 {
        Err(ErrorV::Precondition("改写的提交信息不能为空"@))
    } else {
        let f = join_path(dir, "msg-"@ + decimal(st.msgs.len()));
        Ok(TodoV {
            todo: st.todo + verb + " "@ + sha + "\n"@ + "exec git commit --amend -F '"@ + f + "'\n"@,
            msgs: st.msgs.push((f, msg)),
            foldable: st.foldable,
        })
    }
}

pub open spec fn todo_step(st: TodoV, dir: Seq<char>, item: (Seq<char>, ActionV)) -> Result<TodoV, ErrorV> {
    let sha = item.0;
    match item.1 {
        ActionV::Drop => Ok(st),
        ActionV::Pick => Ok(TodoV { todo: st.todo + "pick "@ + sha + "\n"@, foldable: true, ..st }),
        ActionV::Reword(m) => match amend_spec(st, dir, "pick"@, sha, m) {
            Ok(s) => Ok(TodoV { foldable: true, ..s }),
            Err(e) => Err(e),
        },
        ActionV::Fixup => if !st.foldable {
            Err(ErrorV::Precondition(no_fold_target_msg()))
        } else {
            Ok(TodoV { todo: st.todo + "fixup "@ + sha + "\n"@, ..st })
        },
        ActionV::Squash(m) => if !st.foldable {
            Err(ErrorV::Precondition(no_fold_target_msg()))
        } else {
            amend_spec(st, dir, "fixup"@, sha, m)
        },
    }
}

/// The compilation of the first `n` items; the first error stops it.
pub open spec fn todo_fold(items: Seq<(Seq<char>, ActionV)>, dir: Seq<char>, n: int) -> Result<TodoV, ErrorV>
    decreases n,
{
    if n <= 0 {
        Ok(TodoV { todo: Seq::empty(), msgs: Seq::empty(), foldable: false })
    } else {
        match todo_fold(items, dir, n - 1) {
            Err(e) => Err(e),
            Ok(st) => todo_step(st, dir, items[n - 1]),
        }
    }
}

/// The todo text and message files of a plan; dropping every commit is refused.
pub open spec fn compile_spec(items: Seq<(Seq<char>, ActionV)>, dir: Seq<char>) -> Result<(Seq<char>, Seq<(Seq<char>, Seq<char>)>), ErrorV> {
    match todo_fold(items, dir, items.len() as int) {
        Err(e) => Err(e),
        Ok(st) => if st.todo.len() == 0 {
            Err(ErrorV::Precondition("没有要保留的提交(不能丢弃全部)"@))
        } else {
            Ok((st.todo, st.msgs))
        },
    }
}

pub open spec fn msgs_view(v: Seq<(String, String)>) -> Seq<(Seq<char>, Seq<char>)> {
    v.map_values(|m: (String, String)| (m.0@, m.1@))
}

fn join_path_exec(dir: &[char], name: &Vec<char>) -> (r: Vec<char>)
    ensures
        r@ == join_path(dir@, name@),
{
    let mut r = crate::text::slice_vec(dir, 0, dir.len());
    assert(r@ =~= dir@);
    if dir.len() > 0 && dir[dir.len() - 1] != '/' {
        r.push('/');
    }
    crate::text::push_chars(&mut r, name);
    proof {
        if dir@.len() > 0 && dir@.last() != '/' {
            assert(r@ =~= dir@ + seq!['/'] + name@);
        } else if dir@.len() == 0 {
            assert(r@ =~= name@);
        }
    }
    r
}

/// Emits `<verb> <sha>` and the `exec git commit --amend -F` line, and queues the message file.
fn push_amend(todo: &mut Vec<char>, msgs: &mut Vec<(String, String)>, msg_dir: &[char], verb: &str, sha: &String, msg: &String) -> (r: Result<(), Error>)
    ensures
        match amend_spec(TodoV { todo: old(todo)@, msgs: msgs_view(old(msgs)@), foldable: false }, msg_dir@, verb@, sha@, msg@) {
            Ok(s) => r is Ok && final(todo)@ == s.todo && msgs_view(final(msgs)@) == s.msgs,
            Err(e) => r is Err && r->Err_0.view() == e,
        },
{
    let m = crate::text::chars_of(msg.as_str());
    let t = crate::text::trim_vec(&m);
    if t.len() == 0 {
        return Err(Error::precondition("改写的提交信息不能为空"));
    }
    let mut name = crate::text::chars_of("msg-");
    crate::text::push_decimal(&mut name, msgs.len() as u64);
    let f = join_path_exec(msg_dir, &name);
    crate::text::push_str(todo, verb);
    crate::text::push_str(todo, " ");
    crate::text::push_chars(todo, &crate::text::chars_of(sha.as_str()));
    crate::text::push_str(todo, "\n");
    crate::text::push_str(todo, "exec git commit --amend -F '");
    crate::text::push_chars(todo, &f);
    crate::text::push_str(todo, "'\n");
    let ghost before = msgs_view(msgs@);
    msgs.push((crate::text::string_of(&f), msg.clone()));
    assert(msgs_view(msgs@) =~= before.push((f@, msg@)));
    assert(todo@ =~= old(todo)@ + verb@ + " "@ + sha@ + "\n"@ + "exec git commit --amend -F '"@ + f@ + "'\n"@);
    Ok(())
}

fn no_fold_target() -> (e: Error)
    ensures
        e.view() == ErrorV::Precondition(no_fold_target_msg()),
{
    Error::precondition("第一个保留的提交不能是 squash/fixup(没有可折叠的上一个提交)")
}

/// Compiles the edited plan into `git rebase -i` todo text and the message files to
/// write first (`(path, message)`, paths under `msg_dir`).
pub fn compile_todo(items: &[RebaseItem], msg_dir: &str) -> (r: Result<(String, Vec<(String, String)>), Error>)
    ensures
        match compile_spec(items_view(items@), msg_dir@) {
            Ok((todo, msgs)) => r is Ok && r->Ok_0.0@ == todo && msgs_view(r->Ok_0.1@) == msgs,
            Err(e) => r is Err && r->Err_0.view() == e,
        },
{
    let ghost iv = items_view(items@);
    let dir = crate::text::chars_of(msg_dir);
    let mut todo: Vec<char> = Vec::new();
    let mut msgs: Vec<(String, String)> = Vec::new();
    let mut foldable = false;
    let mut i: usize = 0;
    assert(msgs_view(msgs@) =~= Seq::<(Seq<char>, Seq<char>)>::empty());
    while i < items.len()
        invariant
            i <= items.len(),
            iv == items_view(items@),
            dir@ == msg_dir@,
            todo_fold(iv, msg_dir@, i as int) == Ok::<TodoV, ErrorV>(TodoV { todo: todo@, msgs: msgs_view(msgs@), foldable }),
        decreases items.len() - i,
    {
        let item = &items[i];
        assert(iv[i as int] == item.view());
        match &item.action {
            RebaseAction::Drop => {},
            RebaseAction::Pick => {
                crate::text::push_str(&mut todo, "pick ");
                crate::text::push_chars(&mut todo, &crate::text::chars_of(item.sha.as_str()));
                crate::text::push_str(&mut todo, "\n");
                foldable = true;
            },
            RebaseAction::Reword(msg) => {
                match push_amend(&mut todo, &mut msgs, &dir, "pick", &item.sha, msg) {
                    Ok(()) => {},
                    Err(e) => {
                        proof {
                            lemma_fold_err(iv, msg_dir@, i as int + 1, items.len() as int);
                        }
                        return Err(e);
                    },
                }
                foldable = true;
            },
            RebaseAction::Fixup => {
                if !foldable {
                    proof {
                        lemma_fold_err(iv, msg_dir@, i as int + 1, items.len() as int);
                    }
                    return Err(no_fold_target());
                }
                crate::text::push_str(&mut todo, "fixup ");
                crate::text::push_chars(&mut todo, &crate::text::chars_of(item.sha.as_str()));
                crate::text::push_str(&mut todo, "\n");
            },
            RebaseAction::Squash(msg) => {
                if !foldable {
                    proof {
                        lemma_fold_err(iv, msg_dir@, i as int + 1, items.len() as int);
                    }
                    return Err(no_fold_target());
                }
                match push_amend(&mut todo, &mut msgs, &dir, "fixup", &item.sha, msg) {
                    Ok(()) => {},
                    Err(e) => {
                        proof {
                            lemma_fold_err(iv, msg_dir@, i as int + 1, items.len() as int);
                        }
                        return Err(e);
                    },
                }
            },
        }
        i = i + 1;
    }
    if todo.len() == 0 {
        return Err(Error::precondition("没有要保留的提交(不能丢弃全部)"));
    }
    Ok((crate::text::string_of(&todo), msgs))
}

/// Once the compilation failed, it stays failed with the same error.
proof fn lemma_fold_err(items: Seq<(Seq<char>, ActionV)>, dir: Seq<char>, k: int, n: int)
    requires
        0 <= k <= n,
        todo_fold(items, dir, k) is Err,
    ensures
        todo_fold(items, dir, n) == todo_fold(items, dir, k),
    decreases n - k,
{
    if n > k {
        lemma_fold_err(items, dir, k, n - 1);
    }
}


// ───────────────────────── running it ─────────────────────────

pub open spec fn not_ancestor_msg() -> Seq<char> {
    "只能对当前分支历史中的提交交互式变基"@
}

/// `from` must be an ancestor of HEAD (reply `k`).
pub open spec fn ancestor_at(rs: Seq<ReplyV>, k: int, dir: Seq<char>, from: Seq<char>) -> Outcome<int> {
    then(run_checked(rs, k, dir, seq!["merge-base"@, "--is-ancestor"@, from, "HEAD"@]), |o: GitOutV| if o.success {
        Outcome::Done(k + 1)
    } else {
        Outcome::Fail(ErrorV::Precondition(not_ancestor_msg()))
    })
}

/// Has `sha` a parent (reply `k`)?
pub open spec fn has_parent_at(rs: Seq<ReplyV>, k: int, dir: Seq<char>, sha: Seq<char>) -> Outcome<(bool, int)> {
    map_done(run_checked(rs, k, dir, seq!["rev-parse"@, "--verify"@, "--quiet"@, sha + "^"@]), |o: GitOutV| (o.success, k + 1))
}

pub open spec fn plan_args(range: Seq<char>) -> Seq<Seq<char>> {
    seq!["log"@, "--reverse"@, "--pretty=format:%H%x00%h%x00%s%x00%an%x00%ar"@, range]
}

/// The commits `from..HEAD`, `from` included, oldest first (the todo order).
pub open spec fn plan_spec(rs: Seq<ReplyV>, dir: Seq<char>, from: Seq<char>) -> Outcome<Seq<(Seq<char>, Seq<char>, Seq<char>, Seq<char>, Seq<char>)>> {
    then(ancestor_at(rs, 0, dir, from), |k1: int|
        then(has_parent_at(rs, k1, dir, from), |hp: (bool, int)|
            map_done(run_git(rs, hp.1, dir, plan_args(if hp.0 { from + "^..HEAD"@ } else { "HEAD"@ })), |o: Seq<char>| parse_log_spec(o))))
}

/// Writing the message files `msgs[i..]` (from reply `k`).
pub open spec fn write_all_from(rs: Seq<ReplyV>, k: int, msgs: Seq<(Seq<char>, Seq<char>)>, i: int) -> Outcome<int>
    decreases msgs.len() - i,
{
    if i < 0 || i >= msgs.len() {
        Outcome::Done(k)
    } else {
        match run_effect(rs, k, RequestV::WriteFile(msgs[i].0, msgs[i].1)) {
            Outcome::Ask(q) => Outcome::Ask(q),
            Outcome::Fail(e) => Outcome::Fail(e),
            Outcome::Done(_) => write_all_from(rs, k + 1, msgs, i + 1),
        }
    }
}

/// A request whose outcome is ignored (reply `k`): only a reply still to come matters.
pub open spec fn ignoring<A>(rs: Seq<ReplyV>, k: int, req: RequestV, next: Outcome<A>) -> Outcome<A> {
    match io_reply(rs, k, req) {
        Outcome::Ask(q) => Outcome::Ask(q),
        _ => next,
    }
}

pub open spec fn rebase_i_args(todo_path: Seq<char>, base: Seq<char>) -> Seq<Seq<char>> {
    seq!["-c"@, "sequence.editor=cp '"@ + todo_path + "'"@, "-c"@, "core.editor=true"@, "-c"@, "rerere.enabled=true"@, "-c"@, "merge.conflictStyle=zdiff3"@, "rebase"@, "-i"@, base]
}

pub open spec fn dirty_msg() -> Seq<char> {
    "交互式变基前请先提交或暂存改动(工作区需干净)"@
}

/// After `git rebase -i` ran (its output `o`, next reply `k`).
pub open spec fn after_rebase_i(rs: Seq<ReplyV>, k: int, dir: Seq<char>, md: Seq<char>, args: Seq<Seq<char>>, o: GitOutV) -> Outcome<UpdV> {
    if o.success {
        ignoring(rs, k, RequestV::RemoveDirAll(md), Outcome::Done(UpdV::Resolved))
    } else {
        then(rerere_at(rs, k, dir), |k7: int| then(conflicted_at(rs, k7, dir), |c: (Seq<Seq<char>>, int)|
            if c.0.len() > 0 {
                Outcome::Done(UpdV::Conflicted(c.0, None))
            } else {
                then(in_progress_at(rs, c.1, dir), |ip: (Option<IntegrationKind>, int)|
                    if ip.0 == Some(IntegrationKind::Rebase) {
                        continue_at(rs, ip.1, dir, None, false)
                    } else {
                        ignoring(rs, ip.1, RequestV::RemoveDirAll(md), Outcome::Fail(ErrorV::Git(args, o.code, o.stderr)))
                    })
            }))
    }
}

/// From the cleared message directory `md` on (reply `k`): write the message files and the
/// todo, then run `git rebase -i` from `from`'s parent (or the root).
pub open spec fn run_rebase_i(rs: Seq<ReplyV>, k: int, dir: Seq<char>, md: Seq<char>, from: Seq<char>, todo: Seq<char>, msgs: Seq<(Seq<char>, Seq<char>)>) -> Outcome<UpdV> {
    let tp = join_path(md, "todo"@);
    then(write_all_from(rs, k, msgs, 0), |k5: int|
        then(run_effect(rs, k5, RequestV::WriteFile(tp, todo)), |u: ()|
            then(has_parent_at(rs, k5 + 1, dir, from), |hp: (bool, int)| {
                let args = rebase_i_args(tp, if hp.0 { from + "^"@ } else { "--root"@ });
                then(run_checked(rs, hp.1, dir, args), |o: GitOutV| after_rebase_i(rs, hp.1 + 1, dir, md, args, o))
            })))
}

/// An interactive rebase from `from` with the edited plan `items`: refused during another
/// integration, on a dirty tree, or when `from` is not in HEAD's history.
pub open spec fn rebase_i_spec(rs: Seq<ReplyV>, dir: Seq<char>, from: Seq<char>, items: Seq<(Seq<char>, ActionV)>) -> Outcome<UpdV> {
    then(preflight_at(rs, 0, dir), |k1: int|
        then(run_git(rs, k1, dir, crate::stash::porcelain_args()), |st: Seq<char>| if trim(st).len() > 0 {
            Outcome::Fail(ErrorV::Precondition(dirty_msg()))
        } else {
            then(ancestor_at(rs, k1 + 1, dir, from), |k2: int|
                then(git_dir_at(rs, k2, dir), |g: (Seq<char>, int)| {
                    let md = join_path(g.0, "girebase-msgs"@);
                    ignoring(rs, g.1, RequestV::RemoveDirAll(md),
                        then(run_effect(rs, g.1 + 1, RequestV::CreateDirAll(md)), |u: ()| match compile_spec(items, md) {
                            Err(e) => Outcome::Fail(e),
                            Ok((todo, msgs)) => run_rebase_i(rs, g.1 + 2, dir, md, from, todo, msgs),
                        }))
                }))
        }))
}

impl Repo {
    fn ancestor(&self, replies: &[Reply], k: usize, from: &str) -> (r: Flow<usize>)
        ensures
            flow_view(r, |n: usize| n as int) == ancestor_at(replies_view(replies@), k as int, self.dir(), from@),
    {
        let args = vec![s("merge-base"), s("--is-ancestor"), s(from), s("HEAD")];
        assert(strs(args@) =~= seq!["merge-base"@, "--is-ancestor"@, from@, "HEAD"@]);
        match self.git_checked(replies, k, args) {
            Flow::Ask(q) => Flow::Ask(q),
            Flow::Fail(e) => Flow::Fail(e),
            Flow::Got(o) => {
                if o.success {
                    Flow::Got(k + 1)
                } else {
                    Flow::Fail(Error::precondition("只能对当前分支历史中的提交交互式变基"))
                }
            },
        }
    }

    fn has_parent(&self, replies: &[Reply], k: usize, sha: &str) -> (r: Flow<(bool, usize)>)
        ensures
            flow_view(r, |p: (bool, usize)| (p.0, p.1 as int)) == has_parent_at(replies_view(replies@), k as int, self.dir(), sha@),
    {
        let mut c = crate::text::chars_of(sha);
        crate::text::push_str(&mut c, "^");
        let args = vec![s("rev-parse"), s("--verify"), s("--quiet"), crate::text::string_of(&c)];
        assert(strs(args@) =~= seq!["rev-parse"@, "--verify"@, "--quiet"@, sha@ + "^"@]);
        match self.git_checked(replies, k, args) {
            Flow::Ask(q) => Flow::Ask(q),
            Flow::Fail(e) => Flow::Fail(e),
            Flow::Got(o) => Flow::Got((o.success, k + 1)),
        }
    }

    /// The commits from `from_sha` to HEAD (`from_sha` included), oldest first, for editing
    /// into an interactive rebase plan; `from_sha` must be in HEAD's history.
    pub fn rebase_plan(&self, from_sha: &str, replies: &[Reply]) -> (r: Step<Vec<LogEntry>>)
        ensures
            step_view(r, |v: Vec<LogEntry>| entries_view(v@)) == plan_spec(replies_view(replies@), self.dir(), from_sha@),
    {
        let k1 = match self.ancestor(replies, 0, from_sha) {
            Flow::Ask(q) => {
                return Step::Ask(q);
            },
            Flow::Fail(e) => {
                return Step::Done(Err(e));
            },
            Flow::Got(n) => n,
        };
        let (hp, k2) = match self.has_parent(replies, k1, from_sha) {
            Flow::Ask(q) => {
                return Step::Ask(q);
            },
            Flow::Fail(e) => {
                return Step::Done(Err(e));
            },
            Flow::Got(p) => p,
        };
        let range = if hp {
            let mut c = crate::text::chars_of(from_sha);
            crate::text::push_str(&mut c, "^..HEAD");
            crate::text::string_of(&c)
        } else {
            s("HEAD")
        };
        let args = vec![s("log"), s("--reverse"), s("--pretty=format:%H%x00%h%x00%s%x00%an%x00%ar"), range];
        assert(strs(args@) =~= plan_args(if hp { from_sha@ + "^..HEAD"@ } else { "HEAD"@ }));
        match self.git(replies, k2, args) {
            Flow::Ask(q) => Step::Ask(q),
            Flow::Fail(e) => Step::Done(Err(e)),
            Flow::Got(o) => Step::Done(Ok(crate::log::parse_log(o.as_str()))),
        }
    }

    fn write_all_from(&self, replies: &[Reply], k: usize, msgs: &Vec<(String, String)>, i: usize) -> (r: Flow<usize>)
        requires
            i <= msgs.len(),
        ensures
            flow_view(r, |n: usize| n as int) == write_all_from(replies_view(replies@), k as int, msgs_view(msgs@), i as int),
        decreases msgs.len() - i,
    {
        if i >= msgs.len() {
            return Flow::Got(k);
        }
        assert(msgs_view(msgs@)[i as int] == (msgs@[i as int].0@, msgs@[i as int].1@));
        let req = Request::WriteFile(msgs[i].0.clone(), msgs[i].1.clone());
        match crate::repo::effect_flow(replies, k, req) {
            Flow::Ask(q) => Flow::Ask(q),
            Flow::Fail(e) => Flow::Fail(e),
            Flow::Got(_) => self.write_all_from(replies, k + 1, msgs, i + 1),
        }
    }

    fn after_rebase_i(&self, replies: &[Reply], k: usize, md: &String, args: Vec<String>, o: crate::repo::GitOutput) -> (r: Step<UpdateOutcome>)
        ensures
            step_view(r, |x: UpdateOutcome| x.view()) == after_rebase_i(replies_view(replies@), k as int, self.dir(), md@, strs(args@), o.view()),
    {
        if o.success {
            return match crate::repo::io_flow(replies, k, Request::RemoveDirAll(md.clone())) {
                Flow::Ask(q) => Step::Ask(q),
                _ => Step::Done(Ok(UpdateOutcome::Resolved)),
            };
        }
        let k7 = match self.auto_resolve_rerere(replies, k) {
            Flow::Ask(q) => {
                return Step::Ask(q);
            },
            Flow::Fail(e) => {
                return Step::Done(Err(e));
            },
            Flow::Got(n) => n,
        };
        let files = match self.conflicted_at(replies, k7) {
            Flow::Ask(q) => {
                return Step::Ask(q);
            },
            Flow::Fail(e) => {
                return Step::Done(Err(e));
            },
            Flow::Got(f) => f,
        };
        if files.len() > 0 {
            return Step::Done(Ok(UpdateOutcome::Conflicted { files, autostash: None }));
        }
        let (kind, k9) = match self.in_progress(replies, k7 + 1) {
            Flow::Ask(q) => {
                return Step::Ask(q);
            },
            Flow::Fail(e) => {
                return Step::Done(Err(e));
            },
            Flow::Got(p) => p,
        };
        match kind {
            Some(IntegrationKind::Rebase) => {
                return self.continue_from(replies, k9, None, false);
            },
            _ => {},
        }
        match crate::repo::io_flow(replies, k9, Request::RemoveDirAll(md.clone())) {
            Flow::Ask(q) => Step::Ask(q),
            _ => Step::Done(Err(Error::Git { args, code: o.code, stderr: o.stderr })),
        }
    }

    /// Rebases interactively from `from_sha` with the edited plan: `reword`/`squash`
    /// messages go to files under the git directory, the compiled todo replaces git's own.
    /// Conflicts stop it as an update does (continue or abort then).
    #[verifier::spinoff_prover]
    #[verifier::rlimit(60)]
    pub fn rebase_interactive(&self, from_sha: &str, items: &[RebaseItem], replies: &[Reply]) -> (r: Step<UpdateOutcome>)
        ensures
            step_view(r, |x: UpdateOutcome| x.view()) == rebase_i_spec(replies_view(replies@), self.dir(), from_sha@, items_view(items@)),
    {
        let k1 = match self.preflight(replies, 0) {
            Flow::Ask(q) => {
                return Step::Ask(q);
            },
            Flow::Fail(e) => {
                return Step::Done(Err(e));
            },
            Flow::Got(n) => n,
        };
        let a0 = vec![s("status"), s("--porcelain")];
        assert(strs(a0@) =~= crate::stash::porcelain_args());
        let st = match self.git(replies, k1, a0) {
            Flow::Ask(q) => {
                return Step::Ask(q);
            },
            Flow::Fail(e) => {
                return Step::Done(Err(e));
            },
            Flow::Got(o) => o,
        };
        if crate::text::trim_vec(&crate::text::chars_of(st.as_str())).len() > 0 {
            return Step::Done(Err(Error::precondition("交互式变基前请先提交或暂存改动(工作区需干净)")));
        }
        let k2 = match self.ancestor(replies, k1 + 1, from_sha) {
            Flow::Ask(q) => {
                return Step::Ask(q);
            },
            Flow::Fail(e) => {
                return Step::Done(Err(e));
            },
            Flow::Got(n) => n,
        };
        let (gd, k3) = match self.git_dir(replies, k2) {
            Flow::Ask(q) => {
                return Step::Ask(q);
            },
            Flow::Fail(e) => {
                return Step::Done(Err(e));
            },
            Flow::Got(p) => p,
        };
        let md = crate::repo::join(&gd, "girebase-msgs");
        match crate::repo::io_flow(replies, k3, Request::RemoveDirAll(md.clone())) {
            Flow::Ask(q) => {
                return Step::Ask(q);
            },
            _ => {},
        }
        match crate::repo::effect_flow(replies, k3 + 1, Request::CreateDirAll(md.clone())) {
            Flow::Ask(q) => {
                return Step::Ask(q);
            },
            Flow::Fail(e) => {
                return Step::Done(Err(e));
            },
            Flow::Got(_) => {},
        }
        let (todo, msgs) = match compile_todo(items, md.as_str()) {
            Err(e) => {
                return Step::Done(Err(e));
            },
            Ok(p) => p,
        };
        let k5 = match self.write_all_from(replies, k3 + 2, &msgs, 0) {
            Flow::Ask(q) => {
                return Step::Ask(q);
            },
            Flow::Fail(e) => {
                return Step::Done(Err(e));
            },
            Flow::Got(n) => n,
        };
        let tp = crate::repo::join(&md, "todo");
        match crate::repo::effect_flow(replies, k5, Request::WriteFile(tp.clone(), todo)) {
            Flow::Ask(q) => {
                return Step::Ask(q);
            },
            Flow::Fail(e) => {
                return Step::Done(Err(e));
            },
            Flow::Got(_) => {},
        }
        let (hp, k6) = match self.has_parent(replies, k5 + 1, from_sha) {
            Flow::Ask(q) => {
                return Step::Ask(q);
            },
            Flow::Fail(e) => {
                return Step::Done(Err(e));
            },
            Flow::Got(p) => p,
        };
        let mut ed = crate::text::chars_of("sequence.editor=cp '");
        crate::text::push_str(&mut ed, tp.as_str());
        crate::text::push_str(&mut ed, "'");
        let base = if hp {
            let mut c = crate::text::chars_of(from_sha);
            crate::text::push_str(&mut c, "^");
            crate::text::string_of(&c)
        } else {
            s("--root")
        };
        let args = vec![
            s("-c"),
            crate::text::string_of(&ed),
            s("-c"),
            s("core.editor=true"),
            s("-c"),
            s("rerere.enabled=true"),
            s("-c"),
            s("merge.conflictStyle=zdiff3"),
            s("rebase"),
            s("-i"),
            base,
        ];
        assert(strs(args@) =~= rebase_i_args(tp@, if hp { from_sha@ + "^"@ } else { "--root"@ }));
        let keep = crate::repo::copy_strings(&args);
        match self.git_checked(replies, k6, args) {
            Flow::Ask(q) => Step::Ask(q),
            Flow::Fail(e) => Step::Done(Err(e)),
            Flow::Got(o) => self.after_rebase_i(replies, k6 + 1, &md, keep, o),
        }
    }
}

} // verus!
