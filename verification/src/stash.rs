//! Stashes: the automatic stash that protects a dirty working tree around an integration
//! or a checkout, and the user's own stash list.
//!
//! An automatic stash carries a label (`gitcore-autostash:<process id>`) by which it is
//! found again, also after a crash. It is put back with `apply` then `drop`, never `pop`:
//! when the apply conflicts, the stash stays, and the changes are never lost.
use vstd::prelude::*;
use crate::text::{lines, trim, split_char, ws_tokens, index_of, views, decimal, contains, find_from, starts_with};
use crate::error::{Error, ErrorV};
use crate::repo::{Repo, Reply, Step, Flow, Outcome, GitOutV, ReplyV, step_view, flow_view, map_done, then, run_git, run_checked, replies_view, strs, s, unit_spec, push_all};
use crate::conflict::conflicted_at;

verus! {

/// Points at an automatic stash.
#[derive(Debug, Clone)]
pub struct StashRef {
    /// The label written when it was made; it finds the stash again.
    pub label: String,
}

/// How putting a stash back went.
#[derive(Debug)]
pub enum PopResult {
    /// Cleanly applied; the stash is gone.
    Clean,
    /// The apply conflicted: the stash stays, and these files need resolving.
    Conflict(Vec<String>),
}

pub enum PopV {
    Clean,
    Conflict(Seq<Seq<char>>),
}

impl PopResult {
    pub open spec fn view(&self) -> PopV {
        match self {
            PopResult::Clean => PopV::Clean,
            PopResult::Conflict(v) => PopV::Conflict(strs(v@)),
        }
    }
}

/// The label prefix of the stashes made here.
pub open spec fn autostash_tag() -> Seq<char> {
    "gitcore-autostash:"@
}

/// The label of an automatic stash made by process `pid`.
pub open spec fn autostash_label_spec(pid: u64) -> Seq<char> {
    autostash_tag() + decimal(pid as nat)
}

/// The label of an automatic stash made by process `pid`.
pub fn autostash_label(pid: u64) -> (r: String)
    ensures
        r@ == autostash_label_spec(pid),
{
    let mut v = crate::text::chars_of("gitcore-autostash:");
    let d = crate::tags::decimal_string(pid);
    crate::text::push_str(&mut v, d.as_str());
    crate::text::string_of(&v)
}

pub open spec fn porcelain_args() -> Seq<Seq<char>> {
    seq!["status"@, "--porcelain"@]
}

pub open spec fn autostash_push_args(label: Seq<char>) -> Seq<Seq<char>> {
    seq!["stash"@, "push"@, "--include-untracked"@, "-m"@, label]
}

/// Stashing a dirty working tree (untracked files too) from reply `k`: the label of the
/// stash, `None` when the tree was clean; and the next reply's index.
pub open spec fn autostash_push_at(rs: Seq<ReplyV>, k: int, dir: Seq<char>, label: Seq<char>) -> Outcome<(Option<Seq<char>>, int)> {
    then(run_git(rs, k, dir, porcelain_args()), |o: Seq<char>|
        if trim(o).len() == 0 {
            Outcome::Done((None, k + 1))
        } else {
            map_done(run_git(rs, k + 1, dir, autostash_push_args(label)), |x: Seq<char>| (Some(label), k + 2))
        })
}

/// The reference (`stash@{N}`) of the first line of `ls[i..]` that holds `label`.
pub open spec fn locate_from(ls: Seq<Seq<char>>, label: Seq<char>, i: int) -> Option<Seq<char>>
    decreases ls.len() - i,
{
    if i < 0 || i >= ls.len() {
        None
    } else if contains(ls[i], label) && ws_tokens(ls[i]).len() > 0 {
        Some(ws_tokens(ls[i])[0])
    } else {
        locate_from(ls, label, i + 1)
    }
}

pub open spec fn locate_spec(out: Seq<char>, label: Seq<char>) -> Option<Seq<char>> {
    locate_from(lines(out), label, 0)
}

pub open spec fn locate_args() -> Seq<Seq<char>> {
    seq!["stash"@, "list"@, "--format=%gd %gs"@]
}

pub open spec fn not_found_msg(label: Seq<char>) -> Seq<char> {
    "找不到 autostash: "@ + label
}

/// Putting the stash labelled `label` back, from reply `k`: apply it, then drop it; a
/// conflicting apply keeps it and reports the conflicted files.
pub open spec fn autostash_pop_at(rs: Seq<ReplyV>, k: int, dir: Seq<char>, label: Seq<char>) -> Outcome<(PopV, int)> {
    then(run_git(rs, k, dir, locate_args()), |o: Seq<char>| match locate_spec(o, label) {
        None => Outcome::Fail(ErrorV::Precondition(not_found_msg(label))),
        Some(r) => then(run_checked(rs, k + 1, dir, seq!["stash"@, "apply"@, r]), |a: GitOutV|
            if a.success {
                map_done(run_git(rs, k + 2, dir, seq!["stash"@, "drop"@, r]), |x: Seq<char>| (PopV::Clean, k + 3))
            } else {
                map_done(conflicted_at(rs, k + 2, dir), |c: (Seq<Seq<char>>, int)| (PopV::Conflict(c.0), c.1))
            }),
    })
}

/// The label of the first line of `ls[i..]` that holds the autostash tag: the line from
/// the tag on, trimmed.
pub open spec fn find_label_from(ls: Seq<Seq<char>>, i: int) -> Option<Seq<char>>
    decreases ls.len() - i,
{
    if i < 0 || i >= ls.len() {
        None
    } else if find_from(ls[i], autostash_tag(), 0) != -1 {
        Some(trim(ls[i].skip(find_from(ls[i], autostash_tag(), 0))))
    } else {
        find_label_from(ls, i + 1)
    }
}

pub open spec fn find_args() -> Seq<Seq<char>> {
    seq!["stash"@, "list"@, "--format=%gs"@]
}

/// Scanning the stash list for an automatic stash left behind (after a crash), from reply `k`.
pub open spec fn find_autostash_at(rs: Seq<ReplyV>, k: int, dir: Seq<char>) -> Outcome<(Option<Seq<char>>, int)> {
    map_done(run_git(rs, k, dir, find_args()), |o: Seq<char>| (find_label_from(lines(o), 0), k + 1))
}

pub open spec fn opt_label(o: Option<StashRef>) -> Option<Seq<char>> {
    match o {
        Some(r) => Some(r.label@),
        None => None,
    }
}

pub fn locate_in(out: &str, label: &str) -> (r: Option<String>)
    ensures
        crate::conflict::opt_view(r) == locate_spec(out@, label@),
{
    let ls = crate::text::lines_of(&crate::text::chars_of(out));
    let ghost lv = views(ls@);
    let lab = crate::text::chars_of(label);
    let mut i: usize = 0;
    while i < ls.len()
        invariant
            i <= ls.len(),
            lv == views(ls@),
            lv == lines(out@),
            lab@ == label@,
            locate_from(lv, label@, 0) == locate_from(lv, label@, i as int),
        decreases ls.len() - i,
    {
        assert(lv[i as int] == ls@[i as int]@);
        if crate::text::contains_chars(&ls[i], &lab) {
            let toks = crate::text::split_ws(&ls[i]);
            if toks.len() > 0 {
                assert(views(toks@)[0] == toks@[0]@);
                return Some(crate::text::string_of(&toks[0]));
            }
        }
        i = i + 1;
    }
    None
}

fn find_label_in(out: &str) -> (r: Option<String>)
    ensures
        crate::conflict::opt_view(r) == find_label_from(lines(out@), 0),
{
    let ls = crate::text::lines_of(&crate::text::chars_of(out));
    let ghost lv = views(ls@);
    let tag = crate::text::chars_of("gitcore-autostash:");
    let mut i: usize = 0;
    while i < ls.len()
        invariant
            i <= ls.len(),
            lv == views(ls@),
            lv == lines(out@),
            tag@ == autostash_tag(),
            find_label_from(lv, 0) == find_label_from(lv, i as int),
        decreases ls.len() - i,
    {
        assert(lv[i as int] == ls@[i as int]@);
        match crate::text::find_sub_from(&ls[i], &tag, 0) {
            Some(pos) => {
                proof {
                    crate::text::lemma_find_from(ls@[i as int]@, tag@, 0);
                }
                let rest = crate::text::slice_vec(&ls[i], pos, ls[i].len());
                assert(rest@ =~= lv[i as int].skip(pos as int));
                return Some(crate::text::string_of(&crate::text::trim_vec(&rest)));
            },
            None => {},
        }
        i = i + 1;
    }
    None
}

impl Repo {
    /// Stashes a dirty working tree (with untracked files) under `label`, from reply `k`;
    /// `None` when the tree is clean.
    pub fn autostash_push(&self, replies: &[Reply], k: usize, label: &String) -> (r: Flow<(Option<StashRef>, usize)>)
        ensures
            flow_view(r, |p: (Option<StashRef>, usize)| (opt_label(p.0), p.1 as int)) == autostash_push_at(replies_view(replies@), k as int, self.dir(), label@),
    {
        let args = vec![s("status"), s("--porcelain")];
        assert(strs(args@) =~= porcelain_args());
        let o = match self.git(replies, k, args) {
            Flow::Ask(q) => {
                return Flow::Ask(q);
            },
            Flow::Fail(e) => {
                return Flow::Fail(e);
            },
            Flow::Got(o) => o,
        };
        if crate::text::trim_vec(&crate::text::chars_of(o.as_str())).len() == 0 {
            return Flow::Got((None, k + 1));
        }
        let args2 = vec![s("stash"), s("push"), s("--include-untracked"), s("-m"), label.clone()];
        assert(strs(args2@) =~= autostash_push_args(label@));
        match self.git(replies, k + 1, args2) {
            Flow::Ask(q) => Flow::Ask(q),
            Flow::Fail(e) => Flow::Fail(e),
            Flow::Got(_) => Flow::Got((Some(StashRef { label: label.clone() }), k + 2)),
        }
    }

    /// Puts the automatic stash back (apply, then drop), from reply `k`; a conflicting
    /// apply keeps the stash.
    pub fn autostash_pop(&self, replies: &[Reply], k: usize, stash: &StashRef) -> (r: Flow<(PopResult, usize)>)
        ensures
            flow_view(r, |p: (PopResult, usize)| (p.0.view(), p.1 as int)) == autostash_pop_at(replies_view(replies@), k as int, self.dir(), stash.label@),
    {
        let args = vec![s("stash"), s("list"), s("--format=%gd %gs")];
        assert(strs(args@) =~= locate_args());
        let o = match self.git(replies, k, args) {
            Flow::Ask(q) => {
                return Flow::Ask(q);
            },
            Flow::Fail(e) => {
                return Flow::Fail(e);
            },
            Flow::Got(o) => o,
        };
        let reff = match locate_in(o.as_str(), stash.label.as_str()) {
            None => {
                let mut m = crate::text::chars_of("找不到 autostash: ");
                crate::text::push_str(&mut m, stash.label.as_str());
                return Flow::Fail(Error::Precondition(crate::text::string_of(&m)));
            },
            Some(r) => r,
        };
        let args2 = vec![s("stash"), s("apply"), reff.clone()];
        assert(strs(args2@) =~= seq!["stash"@, "apply"@, reff@]);
        let a = match self.git_checked(replies, k + 1, args2) {
            Flow::Ask(q) => {
                return Flow::Ask(q);
            },
            Flow::Fail(e) => {
                return Flow::Fail(e);
            },
            Flow::Got(a) => a,
        };
        if a.success {
            let args3 = vec![s("stash"), s("drop"), reff];
            assert(strs(args3@) =~= seq!["stash"@, "drop"@, reff@]);
            match self.git(replies, k + 2, args3) {
                Flow::Ask(q) => Flow::Ask(q),
                Flow::Fail(e) => Flow::Fail(e),
                Flow::Got(_) => Flow::Got((PopResult::Clean, k + 3)),
            }
        } else {
            match self.conflicted_at(replies, k + 2) {
                Flow::Ask(q) => Flow::Ask(q),
                Flow::Fail(e) => Flow::Fail(e),
                Flow::Got(files) => Flow::Got((PopResult::Conflict(files), k + 3)),
            }
        }
    }

    /// Finds an automatic stash left in the stash list (after a crash or interruption),
    /// from reply `k`.
    pub fn find_autostash(&self, replies: &[Reply], k: usize) -> (r: Flow<(Option<StashRef>, usize)>)
        ensures
            flow_view(r, |p: (Option<StashRef>, usize)| (opt_label(p.0), p.1 as int)) == find_autostash_at(replies_view(replies@), k as int, self.dir()),
    {
        let args = vec![s("stash"), s("list"), s("--format=%gs")];
        assert(strs(args@) =~= find_args());
        match self.git(replies, k, args) {
            Flow::Ask(q) => Flow::Ask(q),
            Flow::Fail(e) => Flow::Fail(e),
            Flow::Got(o) => {
                let found = find_label_in(o.as_str());
                let r = match found {
                    Some(l) => Some(StashRef { label: l }),
                    None => None,
                };
                Flow::Got((r, k + 1))
            },
        }
    }
}

// ───────────────────────── the stash list ─────────────────────────

/// A stash.
#[derive(Debug, Clone)]
pub struct StashEntry {
    /// Its reference, `stash@{N}`.
    pub reff: String,
    /// Its message.
    pub message: String,
    /// The branch it was made on (`?` when the message does not say).
    pub branch: String,
}

pub open spec fn stash_entries_view(v: Seq<StashEntry>) -> Seq<(Seq<char>, Seq<char>, Seq<char>)> {
    v.map_values(|e: StashEntry| (e.reff@, e.message@, e.branch@))
}

/// The branch named in a stash message `WIP on <branch>: ...` or `On <branch>: ...`
/// (`?` otherwise), and the message itself.
pub open spec fn stash_message_spec(raw: Seq<char>) -> (Seq<char>, Seq<char>) {
    if starts_with(raw, "WIP on "@) {
        let rest = raw.skip(("WIP on "@).len() as int);
        (trim(rest.take(index_of(rest, ':'))), raw)
    } else if starts_with(raw, "On "@) {
        let rest = raw.skip(("On "@).len() as int);
        (trim(rest.take(index_of(rest, ':'))), raw)
    } else {
        ("?"@, raw)
    }
}

/// The entries of the first `n` lines of `%gd\0%gs\0...` output (blank lines and lines
/// with fewer than two fields are skipped).
pub open spec fn stash_scan(ls: Seq<Seq<char>>, n: int) -> Seq<(Seq<char>, Seq<char>, Seq<char>)>
    decreases n,
{
    if n <= 0 {
        Seq::empty()
    } else {
        let l = ls[n - 1];
        let p = split_char(l, '\0');
        stash_scan(ls, n - 1) + if trim(l).len() > 0 && p.len() >= 2 {
            let (branch, message) = stash_message_spec(p[1]);
            seq![(p[0], message, branch)]
        } else {
            Seq::empty()
        }
    }
}

pub open spec fn parse_stashes_spec(out: Seq<char>) -> Seq<(Seq<char>, Seq<char>, Seq<char>)> {
    let ls = lines(out);
    stash_scan(ls, ls.len() as int)
}

fn branch_of_rest(rest: &[char]) -> (r: String)
    ensures
        r@ == trim(rest@.take(index_of(rest@, ':'))),
{
    let i = crate::text::find_char_from(rest, ':', 0);
    proof {
        crate::text::lemma_index_of_from_bounds(rest@, ':', 0);
    }
    let head = crate::text::slice_vec(rest, 0, i);
    assert(head@ =~= rest@.take(index_of(rest@, ':')));
    crate::text::string_of(&crate::text::trim_vec(&head))
}

/// Splits a stash message into the branch it names and the message.
pub fn parse_stash_message(raw: &[char]) -> (r: (String, String))
    ensures
        (r.0@, r.1@) == stash_message_spec(raw@),
{
    match crate::text::strip_prefix_str(raw, "WIP on ") {
        Some(rest) => {
            return (branch_of_rest(&rest), crate::text::string_of(raw));
        },
        None => {},
    }
    match crate::text::strip_prefix_str(raw, "On ") {
        Some(rest) => (branch_of_rest(&rest), crate::text::string_of(raw)),
        None => (s("?"), crate::text::string_of(raw)),
    }
}

/// Parses `git stash list --pretty=format:%gd%x00%gs%x00%h:%s`.
pub fn parse_stashes(out: &str) -> (r: Vec<StashEntry>)
    ensures
        stash_entries_view(r@) == parse_stashes_spec(out@),
{
    let ls = crate::text::lines_of(&crate::text::chars_of(out));
    let ghost lv = views(ls@);
    let mut r: Vec<StashEntry> = Vec::new();
    let mut i: usize = 0;
    assert(stash_entries_view(r@) =~= stash_scan(lv, 0));
    while i < ls.len()
        invariant
            i <= ls.len(),
            lv == views(ls@),
            lv == lines(out@),
            stash_entries_view(r@) == stash_scan(lv, i as int),
        decreases ls.len() - i,
    {
        assert(lv[i as int] == ls@[i as int]@);
        let t = crate::text::trim_vec(&ls[i]);
        let p = crate::text::split_on(&ls[i], '\0');
        if t.len() > 0 && p.len() >= 2 {
            assert(views(p@)[0] == p@[0]@ && views(p@)[1] == p@[1]@);
            let (branch, message) = parse_stash_message(&p[1]);
            let e = StashEntry { reff: crate::text::string_of(&p[0]), message, branch };
            let ghost before = stash_entries_view(r@);
            r.push(e);
            assert(stash_entries_view(r@) =~= before.push((p@[0]@, e.message@, e.branch@)));
        } else {
            assert(stash_scan(lv, i + 1) =~= stash_scan(lv, i as int));
        }
        i = i + 1;
    }
    r
}

pub open spec fn list_stash_args() -> Seq<Seq<char>> {
    seq!["stash"@, "list"@, "--pretty=format:%gd%x00%gs%x00%h:%s"@]
}

pub open spec fn opt_str_ref(o: Option<&str>) -> Option<Seq<char>> {
    match o {
        Some(x) => Some(x@),
        None => None,
    }
}

pub open spec fn opt_paths(o: Option<&[String]>) -> Option<Seq<Seq<char>>> {
    match o {
        Some(p) => Some(strs(p@)),
        None => None,
    }
}

/// `git stash push --include-untracked [-m <message>] [-- <paths>]`: an empty message or
/// path list is left out.
pub open spec fn stash_push_args(message: Option<Seq<char>>, paths: Option<Seq<Seq<char>>>) -> Seq<Seq<char>> {
    seq!["stash"@, "push"@, "--include-untracked"@] + (match message {
        Some(m) => if m.len() > 0 {
            seq!["-m"@, m]
        } else {
            Seq::empty()
        },
        None => Seq::empty(),
    }) + (match paths {
        Some(p) => if p.len() > 0 {
            seq!["--"@] + p
        } else {
            Seq::empty()
        },
        None => Seq::empty(),
    })
}

/// Popping a stash: `git stash pop`; when it fails, the conflicted files.
pub open spec fn stash_pop_spec(rs: Seq<ReplyV>, dir: Seq<char>, reff: Seq<char>) -> Outcome<PopV> {
    then(run_checked(rs, 0, dir, seq!["stash"@, "pop"@, reff]), |o: GitOutV|
        if o.success {
            Outcome::Done(PopV::Clean)
        } else {
            map_done(conflicted_at(rs, 1, dir), |c: (Seq<Seq<char>>, int)| PopV::Conflict(c.0))
        })
}

impl Repo {
    /// Lists the stashes.
    pub fn stashes(&self, replies: &[Reply]) -> (r: Step<Vec<StashEntry>>)
        ensures
            step_view(r, |v: Vec<StashEntry>| stash_entries_view(v@)) == map_done(run_git(replies_view(replies@), 0, self.dir(), list_stash_args()), |o: Seq<char>| parse_stashes_spec(o)),
    {
        let args = vec![s("stash"), s("list"), s("--pretty=format:%gd%x00%gs%x00%h:%s")];
        assert(strs(args@) =~= list_stash_args());
        match self.git(replies, 0, args) {
            Flow::Ask(q) => Step::Ask(q),
            Flow::Fail(e) => Step::Done(Err(e)),
            Flow::Got(o) => Step::Done(Ok(parse_stashes(o.as_str()))),
        }
    }

    /// Stashes the changes (untracked files too), optionally with a message and only the
    /// given paths.
    pub fn stash_push(&self, message: Option<&str>, paths: Option<&[String]>, replies: &[Reply]) -> (r: Step<()>)
        ensures
            step_view(r, |u: ()| u) == unit_spec(replies_view(replies@), self.dir(), stash_push_args(opt_str_ref(message), opt_paths(paths))),
    {
        let mut args = vec![s("stash"), s("push"), s("--include-untracked")];
        match message {
            Some(m) => {
                if crate::text::chars_of(m).len() > 0 {
                    args.push(s("-m"));
                    args.push(s(m));
                }
            },
            None => {},
        }
        let ghost mid = strs(args@);
        match paths {
            Some(p) => {
                if p.len() > 0 {
                    args.push(s("--"));
                    push_all(&mut args, p);
                    assert(strs(args@) =~= mid + (seq!["--"@] + strs(p@)));
                }
            },
            None => {},
        }
        assert(strs(args@) =~= stash_push_args(opt_str_ref(message), opt_paths(paths)));
        self.git_unit(replies, args)
    }

    /// Applies a stash and keeps it.
    pub fn stash_apply(&self, reff: &str, replies: &[Reply]) -> (r: Step<()>)
        ensures
            step_view(r, |u: ()| u) == unit_spec(replies_view(replies@), self.dir(), seq!["stash"@, "apply"@, reff@]),
    {
        let args = vec![s("stash"), s("apply"), s(reff)];
        assert(strs(args@) =~= seq!["stash"@, "apply"@, reff@]);
        self.git_unit(replies, args)
    }

    /// Pops a stash; when it conflicts, git keeps the stash and the conflicted files are
    /// reported.
    pub fn stash_pop(&self, reff: &str, replies: &[Reply]) -> (r: Step<PopResult>)
        ensures
            step_view(r, |p: PopResult| p.view()) == stash_pop_spec(replies_view(replies@), self.dir(), reff@),
    {
        let args = vec![s("stash"), s("pop"), s(reff)];
        assert(strs(args@) =~= seq!["stash"@, "pop"@, reff@]);
        let o = match self.git_checked(replies, 0, args) {
            Flow::Ask(q) => {
                return Step::Ask(q);
            },
            Flow::Fail(e) => {
                return Step::Done(Err(e));
            },
            Flow::Got(o) => o,
        };
        if o.success {
            return Step::Done(Ok(PopResult::Clean));
        }
        match self.conflicted_at(replies, 1) {
            Flow::Ask(q) => Step::Ask(q),
            Flow::Fail(e) => Step::Done(Err(e)),
            Flow::Got(files) => Step::Done(Ok(PopResult::Conflict(files))),
        }
    }

    /// Drops a stash.
    pub fn stash_drop(&self, reff: &str, replies: &[Reply]) -> (r: Step<()>)
        ensures
            step_view(r, |u: ()| u) == unit_spec(replies_view(replies@), self.dir(), seq!["stash"@, "drop"@, reff@]),
    {
        let args = vec![s("stash"), s("drop"), s(reff)];
        assert(strs(args@) =~= seq!["stash"@, "drop"@, reff@]);
        self.git_unit(replies, args)
    }
}


// ───────────────────────── laws ─────────────────────────

proof fn lemma_scan_word(s: Seq<char>, r: Seq<char>, j: int)
    requires
        0 <= j <= r.len(),
        r.len() <= s.len(),
        s.take(r.len() as int) == r,
        forall|k: int| 0 <= k < r.len() ==> !crate::text::is_ws(#[trigger] r[k]),
    ensures
        crate::text::ws_scan(s, j) == (Seq::<Seq<char>>::empty(), r.take(j)),
    decreases j,
{
    if j > 0 {
        lemma_scan_word(s, r, j - 1);
        assert(s[j - 1] == r[j - 1]);
        assert(r.take(j) =~= r.take(j - 1).push(r[j - 1]));
    }
}

proof fn lemma_scan_keeps_first(s: Seq<char>, m: int, n: int)
    requires
        0 <= m <= n,
        crate::text::ws_scan(s, m).0.len() > 0,
    ensures
        crate::text::ws_scan(s, n).0.len() > 0,
        crate::text::ws_scan(s, n).0[0] == crate::text::ws_scan(s, m).0[0],
    decreases n - m,
{
    if m < n {
        lemma_scan_keeps_first(s, m, n - 1);
    }
}

/// A stash made with a label is found again by it: when the first line of `git stash
/// list` output is the stash's reference, a space, and a subject that holds the label, the
/// lookup by that label gives the reference.
pub proof fn law_autostash_found_by_label(out: Seq<char>, r: Seq<char>, subject: Seq<char>, label: Seq<char>)
    requires
        lines(out).len() > 0,
        lines(out)[0] == r + seq![' '] + subject,
        r.len() > 0,
        forall|k: int| 0 <= k < r.len() ==> !crate::text::is_ws(#[trigger] r[k]),
        contains(subject, label),
    ensures
        locate_spec(out, label) == Some(r),
{
    let line = lines(out)[0];
    let j = choose|j: int| crate::text::contains_at(subject, label, j);
    let at = r.len() + 1 + j;
    assert(line.subrange(at, at + label.len()) =~= subject.subrange(j, j + label.len()));
    assert(crate::text::contains_at(line, label, at));
    assert(contains(line, label));
    assert(line.take(r.len() as int) =~= r);
    lemma_scan_word(line, r, r.len() as int);
    assert(r.take(r.len() as int) =~= r);
    assert(line[r.len() as int] == ' ');
    assert(crate::text::is_ws(' '));
    let n1: int = (r.len() + 1) as int;
    assert(crate::text::ws_scan(line, n1).0 == seq![r]);
    lemma_scan_keeps_first(line, n1, line.len() as int);
    let (toks, cur) = crate::text::ws_scan(line, line.len() as int);
    assert(crate::text::ws_tokens(line)[0] == r) by {
        if cur.len() > 0 {
            assert(toks.push(cur)[0] == toks[0]);
        }
    }
}

/// The automatic stash is dropped only after it was applied cleanly: whenever putting it
/// back asks git to drop a stash, the `stash apply` answered just before succeeded, so a
/// conflicting restore always leaves the stash in place.
pub proof fn law_autostash_dropped_only_after_clean_apply(rs: Seq<ReplyV>, k: int, dir: Seq<char>, label: Seq<char>, r: Seq<char>)
    requires
        0 <= k,
        autostash_pop_at(rs, k, dir, label) == Outcome::<(PopV, int)>::Ask(crate::repo::git_req(dir, seq!["stash"@, "drop"@, r], Seq::empty(), None, false)),
    ensures
        k + 1 < rs.len(),
        rs[k + 1] matches ReplyV::Git(o) && o.success,
{
    reveal_strlit("list");
    reveal_strlit("drop");
    reveal_strlit("apply");
    reveal_strlit("diff");
    let drop_req = crate::repo::git_req(dir, seq!["stash"@, "drop"@, r], Seq::empty(), None, false);
    assert("list"@[0] != "drop"@[0]);
    assert(locate_args()[1] != drop_req->Git_0.args[1]);
    assert("diff"@[0] != "stash"@[0]) by { reveal_strlit("stash"); }
    assert(crate::conflict::conflicted_args()[0] != drop_req->Git_0.args[0]);
    if k >= rs.len() {
        assert(run_git(rs, k, dir, locate_args()) is Ask);
        assert(false);
    }
}

/// The first `:` of `b + ": " + m` is the one after `b`, when `b` holds none.
proof fn lemma_colon_after(b: Seq<char>, m: Seq<char>)
    requires
        !b.contains(':'),
    ensures
        index_of(b + ": "@ + m, ':') == b.len(),
        (b + ": "@ + m).take(b.len() as int) == b,
{
    reveal_strlit(": ");
    let x = b + ": "@ + m;
    crate::text::lemma_index_of_from_bounds(x, ':', 0);
    assert(x[b.len() as int] == ':');
    if index_of(x, ':') < b.len() {
        assert(b[index_of(x, ':')] == ':');
        assert(b.contains(':'));
    }
    assert(x.take(b.len() as int) =~= b);
}

/// The branch a stash names: git writes `On <branch>: <message>` for a stash made with a
/// message and `WIP on <branch>: <commit>` for one without; either way the stash's branch
/// is the name between the prefix and the first `:` (trimmed), and both forms of one
/// branch give the same branch. The message is the subject as it is.
pub proof fn law_stash_names_its_branch(b: Seq<char>, m: Seq<char>)
    requires
        !b.contains(':'),
    ensures
        stash_message_spec("On "@ + b + ": "@ + m) == (trim(b), "On "@ + b + ": "@ + m),
        stash_message_spec("WIP on "@ + b + ": "@ + m) == (trim(b), "WIP on "@ + b + ": "@ + m),
{
    reveal_strlit("On ");
    reveal_strlit("WIP on ");
    lemma_colon_after(b, m);
    let on = "On "@ + b + ": "@ + m;
    let wip = "WIP on "@ + b + ": "@ + m;
    assert(on.take(3) =~= "On "@);
    assert(!starts_with(on, "WIP on "@)) by {
        if on.len() >= 7 {
            assert(on.take(7)[0] == 'O');
        }
    }
    assert(on.skip(3) =~= b + ": "@ + m);
    assert(wip.take(7) =~= "WIP on "@);
    assert(wip.skip(7) =~= b + ": "@ + m);
}

proof fn lemma_trim_start_keeps(s: Seq<char>, i: int)
    requires
        0 <= i < s.len(),
        !crate::text::is_ws(s[i]),
    ensures
        exists|j: int| 0 <= j < crate::text::trim_start(s).len() && !crate::text::is_ws(#[trigger] crate::text::trim_start(s)[j]),
    decreases s.len(),
{
    if s.len() > 0 && crate::text::is_ws(s[0]) {
        assert(i > 0);
        assert(s.drop_first()[i - 1] == s[i]);
        lemma_trim_start_keeps(s.drop_first(), i - 1);
        assert(crate::text::trim_start(s) == crate::text::trim_start(s.drop_first()));
    } else {
        assert(!crate::text::is_ws(crate::text::trim_start(s)[i]));
    }
}

proof fn lemma_trim_end_keeps(s: Seq<char>, i: int)
    requires
        0 <= i < s.len(),
        !crate::text::is_ws(s[i]),
    ensures
        crate::text::trim_end(s).len() > 0,
    decreases s.len(),
{
    if s.len() > 0 && crate::text::is_ws(s.last()) {
        assert(i < s.len() - 1);
        assert(s.drop_last()[i] == s[i]);
        lemma_trim_end_keeps(s.drop_last(), i);
    }
}

/// Text with a non-blank character does not trim to nothing.
proof fn lemma_trim_nonblank(s: Seq<char>, i: int)
    requires
        0 <= i < s.len(),
        !crate::text::is_ws(s[i]),
    ensures
        trim(s).len() > 0,
{
    lemma_trim_start_keeps(s, i);
    let t = crate::text::trim_start(s);
    let j = choose|j: int| 0 <= j < t.len() && !crate::text::is_ws(#[trigger] t[j]);
    lemma_trim_end_keeps(t, j);
}

/// Splitting `u + c + v` at `c`, where `u` holds no `c`: `u`, then the pieces of `v`.
proof fn lemma_split_first(u: Seq<char>, c: char, v: Seq<char>)
    requires
        !u.contains(c),
    ensures
        split_char(u + seq![c] + v, c) == seq![u] + split_char(v, c),
{
    let x = u + seq![c] + v;
    crate::text::lemma_index_of_from_bounds(x, c, 0);
    assert(x[u.len() as int] == c);
    let i = index_of(x, c);
    if i < u.len() {
        assert(x[i] == u[i]);
        assert(u.contains(c));
    }
    assert(i == u.len());
    assert(x.take(i) =~= u);
    assert(x.skip(i + 1) =~= v);
}

/// A line of the stash list, `<ref>\0On <branch>: <message>\0<rest>`, adds one entry:
/// the ref, the subject as it is, and the branch it names.
pub proof fn law_stash_line_entry(ls: Seq<Seq<char>>, n: int, r: Seq<char>, b: Seq<char>, m: Seq<char>, rest: Seq<char>)
    requires
        1 <= n <= ls.len(),
        ls[n - 1] == r + seq!['\0'] + ("On "@ + b + ": "@ + m) + seq!['\0'] + rest,
        r.len() > 0,
        !r.contains('\0'),
        !b.contains(':'),
        !b.contains('\0'),
        !m.contains('\0'),
    ensures
        stash_scan(ls, n) == stash_scan(ls, n - 1).push((r, "On "@ + b + ": "@ + m, trim(b))),
{
    reveal_strlit("On ");
    reveal_strlit(": ");
    let subj = "On "@ + b + ": "@ + m;
    assert(!subj.contains('\0')) by {
        if subj.contains('\0') {
            let i = choose|i: int| 0 <= i < subj.len() && subj[i] == '\0';
            if i < 3 {
            } else if i < 3 + b.len() {
                assert(b[i - 3] == '\0');
                assert(b.contains('\0'));
            } else if i < 5 + b.len() {
            } else {
                assert(m[i - 5 - b.len()] == '\0');
                assert(m.contains('\0'));
            }
        }
    }
    let l = ls[n - 1];
    assert(l =~= r + seq!['\0'] + (subj + seq!['\0'] + rest));
    lemma_split_first(r, '\0', subj + seq!['\0'] + rest);
    lemma_split_first(subj, '\0', rest);
    let p = split_char(l, '\0');
    assert(p[0] == r && p[1] == subj);
    law_stash_names_its_branch(b, m);
    assert(trim(l).len() > 0) by {
        assert(l[r.len() as int] == '\0');
        lemma_trim_nonblank(l, r.len() as int);
    }
    assert(stash_scan(ls, n) =~= stash_scan(ls, n - 1).push((r, subj, trim(b))));
}

} // verus!
