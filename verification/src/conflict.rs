//! Conflicted files: listing them, reading their three versions from the index stages, and
//! telling their kinds apart (which decides how the user resolves them).
use vstd::prelude::*;
use crate::text::{lines, trim, split_char, ws_tokens, parse_unsigned, index_of, views, decimal};
use crate::repo::{Repo, Reply, Step, Flow, Outcome, GitOutV, ReplyV, step_view, flow_view, map_done, then, run_git, run_checked, replies_view, strs, s};

verus! {

/// The kind of a conflicted file.
#[derive(Debug, Clone, Copy, PartialEq, Eq, Structural)]
pub enum ConflictKind {
    /// Both sides changed the content (stages 1, 2 and 3, text): resolved hunk by hunk.
    BothModified,
    /// Changed here, deleted there (stages 1 and 2): keep the change or accept the deletion.
    ModifyDelete,
    /// Deleted here, changed there (stages 1 and 3).
    DeleteModify,
    /// Both sides added the same path (stages 2 and 3, no base).
    AddAdd,
    /// Binary content (a stage blob holds a NUL): one whole side is taken.
    Binary,
}

/// A conflicted file and its kind.
#[derive(Debug, Clone)]
pub struct ConflictFile {
    pub path: String,
    pub kind: ConflictKind,
}

/// The three versions of a conflicted file (the inputs of the three-way merge).
#[derive(Debug, Clone)]
pub struct ThreeVersions {
    /// The common ancestor (stage 1); `None` for an add/add conflict.
    pub base: Option<String>,
    /// The current branch's version (stage 2).
    pub ours: Option<String>,
    /// The incoming version (stage 3).
    pub theirs: Option<String>,
}

pub open spec fn opt_view(o: Option<String>) -> Option<Seq<char>> {
    match o {
        Some(x) => Some(x@),
        None => None,
    }
}

impl ThreeVersions {
    pub open spec fn view(&self) -> (Option<Seq<char>>, Option<Seq<char>>, Option<Seq<char>>) {
        (opt_view(self.base), opt_view(self.ours), opt_view(self.theirs))
    }
}

pub open spec fn conflict_files_view(v: Seq<ConflictFile>) -> Seq<(Seq<char>, ConflictKind)> {
    v.map_values(|f: ConflictFile| (f.path@, f.kind))
}

// ───────────────────────── the list ─────────────────────────

/// The lines of `ls[..n]` that are not blank.
pub open spec fn nonblank_scan(ls: Seq<Seq<char>>, n: int) -> Seq<Seq<char>>
    decreases n,
{
    if n <= 0 {
        Seq::empty()
    } else {
        nonblank_scan(ls, n - 1) + if trim(ls[n - 1]).len() > 0 {
            seq![ls[n - 1]]
        } else {
            Seq::empty()
        }
    }
}

/// The paths listed by `git diff --name-only --diff-filter=U`.
pub open spec fn conflicted_list(out: Seq<char>) -> Seq<Seq<char>> {
    let ls = lines(out);
    nonblank_scan(ls, ls.len() as int)
}

pub open spec fn conflicted_args() -> Seq<Seq<char>> {
    seq!["diff"@, "--name-only"@, "--diff-filter=U"@]
}

/// The conflicted files, from reply `k`, and the next reply's index.
pub open spec fn conflicted_at(rs: Seq<ReplyV>, k: int, dir: Seq<char>) -> Outcome<(Seq<Seq<char>>, int)> {
    map_done(run_git(rs, k, dir, conflicted_args()), |o: Seq<char>| (conflicted_list(o), k + 1))
}

pub fn parse_conflicted(out: &str) -> (r: Vec<String>)
    ensures
        strs(r@) == conflicted_list(out@),
{
    let ls = crate::text::lines_of(&crate::text::chars_of(out));
    let ghost lv = views(ls@);
    let mut r: Vec<String> = Vec::new();
    let mut i: usize = 0;
    assert(strs(r@) =~= nonblank_scan(lv, 0));
    while i < ls.len()
        invariant
            i <= ls.len(),
            lv == views(ls@),
            lv == lines(out@),
            strs(r@) == nonblank_scan(lv, i as int),
        decreases ls.len() - i,
    {
        assert(lv[i as int] == ls@[i as int]@);
        let t = crate::text::trim_vec(&ls[i]);
        if t.len() > 0 {
            let ghost before = strs(r@);
            let x = crate::text::string_of(&ls[i]);
            r.push(x);
            assert(strs(r@) =~= before.push(x@));
        } else {
            assert(nonblank_scan(lv, i + 1) =~= nonblank_scan(lv, i as int));
        }
        i = i + 1;
    }
    r
}

impl Repo {
    /// The conflicted files (reply `k`).
    pub fn conflicted_at(&self, replies: &[Reply], k: usize) -> (r: Flow<Vec<String>>)
        ensures
            flow_view(r, |v: Vec<String>| (strs(v@), k + 1)) == conflicted_at(replies_view(replies@), k as int, self.dir()),
            !(r is Ask) ==> k < replies.len(),
    {
        let args = vec![s("diff"), s("--name-only"), s("--diff-filter=U")];
        assert(strs(args@) =~= conflicted_args());
        match self.git(replies, k, args) {
            Flow::Ask(q) => Flow::Ask(q),
            Flow::Fail(e) => Flow::Fail(e),
            Flow::Got(o) => Flow::Got(parse_conflicted(o.as_str())),
        }
    }
}

/// Lists the files that are currently conflicted.
pub fn conflicted_files(repo: &Repo, replies: &[Reply]) -> (r: Step<Vec<String>>)
    ensures
        step_view(r, |v: Vec<String>| strs(v@)) == map_done(conflicted_at(replies_view(replies@), 0, repo.dir()), |p: (Seq<Seq<char>>, int)| p.0),
{
    match repo.conflicted_at(replies, 0) {
        Flow::Ask(q) => Step::Ask(q),
        Flow::Fail(e) => Step::Done(Err(e)),
        Flow::Got(v) => Step::Done(Ok(v)),
    }
}

// ───────────────────────── the three versions ─────────────────────────

/// `:<stage>:<path>`, the index entry of a stage.
pub open spec fn stage_arg(stage: nat, path: Seq<char>) -> Seq<char> {
    ":"@ + decimal(stage) + ":"@ + path
}

/// A stage's content (reply `k`): `None` when `git show` fails (the stage is absent).
pub open spec fn show_stage_at(rs: Seq<ReplyV>, k: int, dir: Seq<char>, stage: nat, path: Seq<char>) -> Outcome<(Option<Seq<char>>, int)> {
    map_done(run_checked(rs, k, dir, seq!["show"@, stage_arg(stage, path)]), |o: GitOutV|
        (if o.success { Some(o.stdout) } else { None }, k + 1))
}

pub open spec fn three_spec(rs: Seq<ReplyV>, dir: Seq<char>, path: Seq<char>) -> Outcome<(Option<Seq<char>>, Option<Seq<char>>, Option<Seq<char>>)> {
    then(show_stage_at(rs, 0, dir, 1, path), |b: (Option<Seq<char>>, int)|
        then(show_stage_at(rs, 1, dir, 2, path), |o: (Option<Seq<char>>, int)|
            map_done(show_stage_at(rs, 2, dir, 3, path), |t: (Option<Seq<char>>, int)| (b.0, o.0, t.0))))
}

impl Repo {
    /// The content of one index stage of `path` (reply `k`).
    pub fn show_stage_at(&self, replies: &[Reply], k: usize, stage: u8, path: &str) -> (r: Flow<Option<String>>)
        ensures
            flow_view(r, |o: Option<String>| (opt_view(o), k + 1)) == show_stage_at(replies_view(replies@), k as int, self.dir(), stage as nat, path@),
            !(r is Ask) ==> k < replies.len(),
    {
        let mut a = crate::text::chars_of(":");
        let d = crate::tags::decimal_string(stage as u64);
        crate::text::push_str(&mut a, d.as_str());
        crate::text::push_str(&mut a, ":");
        crate::text::push_str(&mut a, path);
        assert(a@ =~= stage_arg(stage as nat, path@));
        let args = vec![s("show"), crate::text::string_of(&a)];
        assert(strs(args@) =~= seq!["show"@, stage_arg(stage as nat, path@)]);
        match self.git_checked(replies, k, args) {
            Flow::Ask(q) => Flow::Ask(q),
            Flow::Fail(e) => Flow::Fail(e),
            Flow::Got(o) => Flow::Got(if o.success { Some(o.stdout) } else { None }),
        }
    }
}

/// The three versions of a conflicted file, straight from index stages 1, 2 and 3 (not from
/// the conflict markers in the file).
pub fn three_versions(repo: &Repo, path: &str, replies: &[Reply]) -> (r: Step<ThreeVersions>)
    ensures
        step_view(r, |v: ThreeVersions| v.view()) == three_spec(replies_view(replies@), repo.dir(), path@),
{
    let base = match repo.show_stage_at(replies, 0, 1, path) {
        Flow::Ask(q) => {
            return Step::Ask(q);
        },
        Flow::Fail(e) => {
            return Step::Done(Err(e));
        },
        Flow::Got(b) => b,
    };
    let ours = match repo.show_stage_at(replies, 1, 2, path) {
        Flow::Ask(q) => {
            return Step::Ask(q);
        },
        Flow::Fail(e) => {
            return Step::Done(Err(e));
        },
        Flow::Got(o) => o,
    };
    match repo.show_stage_at(replies, 2, 3, path) {
        Flow::Ask(q) => Step::Ask(q),
        Flow::Fail(e) => Step::Done(Err(e)),
        Flow::Got(t) => Step::Done(Ok(ThreeVersions { base, ours, theirs: t })),
    }
}

// ───────────────────────── kinds ─────────────────────────

/// The path and stage of an `ls-files -u` record `<mode> <sha> <stage>\t<path>`, when the
/// stage is 1, 2 or 3.
pub open spec fn record_stage(e: Seq<char>) -> Option<(Seq<char>, nat)> {
    let t = index_of(e, '\t');
    if t >= e.len() {
        None
    } else {
        let toks = ws_tokens(e.take(t));
        if toks.len() < 3 {
            None
        } else {
            match parse_unsigned(toks[2], u64::MAX as nat) {
                Some(n) => if 1 <= n <= 3 {
                    Some((e.skip(t + 1), n))
                } else {
                    None
                },
                None => None,
            }
        }
    }
}

/// Which of stages 1, 2, 3 a path has.
pub open spec fn set_flag(f: (bool, bool, bool), st: nat) -> (bool, bool, bool) {
    if st == 1 {
        (true, f.1, f.2)
    } else if st == 2 {
        (f.0, true, f.2)
    } else {
        (f.0, f.1, true)
    }
}

/// `a < b` in the order of `String` (code point by code point).
pub open spec fn lex_lt(a: Seq<char>, b: Seq<char>) -> bool
    decreases a.len(),
{
    if a.len() == 0 {
        b.len() > 0
    } else if b.len() == 0 {
        false
    } else if a[0] != b[0] {
        (a[0] as int) < (b[0] as int)
    } else {
        lex_lt(a.drop_first(), b.drop_first())
    }
}

/// Adds a stage of `path` to a table kept in path order, from position `i` on: a known
/// path gets the stage added; a new one takes its place in the order.
pub open spec fn table_insert_from(tab: Seq<(Seq<char>, (bool, bool, bool))>, i: int, path: Seq<char>, st: nat) -> Seq<(Seq<char>, (bool, bool, bool))>
    decreases tab.len() - i,
{
    if i < 0 || i >= tab.len() {
        tab.push((path, set_flag((false, false, false), st)))
    } else if tab[i].0 == path {
        tab.update(i, (path, set_flag(tab[i].1, st)))
    } else if lex_lt(path, tab[i].0) {
        tab.insert(i, (path, set_flag((false, false, false), st)))
    } else {
        table_insert_from(tab, i + 1, path, st)
    }
}

/// The stage table of the first `n` records, in path order.
pub open spec fn stage_table_upto(es: Seq<Seq<char>>, n: int) -> Seq<(Seq<char>, (bool, bool, bool))>
    decreases n,
{
    if n <= 0 {
        Seq::empty()
    } else {
        let tab = stage_table_upto(es, n - 1);
        match record_stage(es[n - 1]) {
            Some((path, st)) => table_insert_from(tab, 0, path, st),
            None => tab,
        }
    }
}

/// The stage table of `git ls-files -u -z` output.
pub open spec fn stage_table(out: Seq<char>) -> Seq<(Seq<char>, (bool, bool, bool))> {
    let es = split_char(out, '\0');
    stage_table_upto(es, es.len() as int)
}

/// The kind of a conflict from its stages (and, with both sides present, whether it is binary).
pub open spec fn kind_of(f: (bool, bool, bool), binary: bool) -> ConflictKind {
    if f.1 && f.2 {
        if binary {
            ConflictKind::Binary
        } else if f.0 {
            ConflictKind::BothModified
        } else {
            ConflictKind::AddAdd
        }
    } else if f.0 && f.1 {
        ConflictKind::ModifyDelete
    } else if f.0 && f.2 {
        ConflictKind::DeleteModify
    } else {
        ConflictKind::BothModified
    }
}

/// Binary: the first present stage among ours, theirs, base holds a NUL (from reply `k`).
pub open spec fn binary_at(rs: Seq<ReplyV>, k: int, dir: Seq<char>, path: Seq<char>) -> Outcome<(bool, int)> {
    then(show_stage_at(rs, k, dir, 2, path), |a: (Option<Seq<char>>, int)| match a.0 {
        Some(blob) => Outcome::Done((blob.contains('\0'), a.1)),
        None => then(show_stage_at(rs, a.1, dir, 3, path), |b: (Option<Seq<char>>, int)| match b.0 {
            Some(blob) => Outcome::Done((blob.contains('\0'), b.1)),
            None => map_done(show_stage_at(rs, b.1, dir, 1, path), |c: (Option<Seq<char>>, int)| match c.0 {
                Some(blob) => (blob.contains('\0'), c.1),
                None => (false, c.1),
            }),
        }),
    })
}

/// Classifying the table's entries from `i` on, starting at reply `k`: the kinds and the
/// next reply's index.
pub open spec fn classify_from(rs: Seq<ReplyV>, k: int, dir: Seq<char>, tab: Seq<(Seq<char>, (bool, bool, bool))>, i: int) -> Outcome<(Seq<(Seq<char>, ConflictKind)>, int)>
    decreases tab.len() - i,
{
    if i < 0 || i >= tab.len() {
        Outcome::Done((Seq::empty(), k))
    } else {
        let (path, f) = tab[i];
        if f.1 && f.2 {
            match binary_at(rs, k, dir, path) {
                Outcome::Ask(q) => Outcome::Ask(q),
                Outcome::Fail(e) => Outcome::Fail(e),
                Outcome::Done((bin, k1)) => match classify_from(rs, k1, dir, tab, i + 1) {
                    Outcome::Ask(q) => Outcome::Ask(q),
                    Outcome::Fail(e) => Outcome::Fail(e),
                    Outcome::Done(rest) => Outcome::Done((seq![(path, kind_of(f, bin))] + rest.0, rest.1)),
                },
            }
        } else {
            match classify_from(rs, k, dir, tab, i + 1) {
                Outcome::Ask(q) => Outcome::Ask(q),
                Outcome::Fail(e) => Outcome::Fail(e),
                Outcome::Done(rest) => Outcome::Done((seq![(path, kind_of(f, false))] + rest.0, rest.1)),
            }
        }
    }
}

pub open spec fn ls_unmerged_args() -> Seq<Seq<char>> {
    seq!["ls-files"@, "-u"@, "-z"@]
}

/// Classifying the conflicted files from reply `k`: their kinds and the next reply's index.
pub open spec fn classify_at(rs: Seq<ReplyV>, k: int, dir: Seq<char>) -> Outcome<(Seq<(Seq<char>, ConflictKind)>, int)> {
    then(run_git(rs, k, dir, ls_unmerged_args()), |o: Seq<char>| classify_from(rs, k + 1, dir, stage_table(o), 0))
}

pub open spec fn classify_spec(rs: Seq<ReplyV>, dir: Seq<char>) -> Outcome<Seq<(Seq<char>, ConflictKind)>> {
    map_done(classify_at(rs, 0, dir), |p: (Seq<(Seq<char>, ConflictKind)>, int)| p.0)
}

pub open spec fn table_view(v: Seq<(String, (bool, bool, bool))>) -> Seq<(Seq<char>, (bool, bool, bool))> {
    v.map_values(|e: (String, (bool, bool, bool))| (e.0@, e.1))
}

/// `lex_lt` on strings.
pub fn lex_less(a: &[char], b: &[char]) -> (r: bool)
    ensures
        r == lex_lt(a@, b@),
{
    let mut i: usize = 0;
    assert(a@.skip(0) =~= a@);
    assert(b@.skip(0) =~= b@);
    while i < a.len() && i < b.len() && a[i] == b[i]
        invariant
            i <= a.len(),
            i <= b.len(),
            lex_lt(a@, b@) == lex_lt(a@.skip(i as int), b@.skip(i as int)),
        decreases a.len() - i,
    {
        assert(a@.skip(i as int).drop_first() =~= a@.skip(i + 1));
        assert(b@.skip(i as int).drop_first() =~= b@.skip(i + 1));
        i = i + 1;
    }
    if i == a.len() {
        i < b.len()
    } else if i == b.len() {
        false
    } else {
        a[i] < b[i]
    }
}

fn record_stage_exec(e: &[char]) -> (r: Option<(Vec<char>, u8)>)
    ensures
        match r {
            Some((p, st)) => record_stage(e@) == Some((p@, st as nat)),
            None => record_stage(e@) is None,
        },
{
    let t = crate::text::find_char_from(e, '\t', 0);
    proof {
        crate::text::lemma_index_of_from_bounds(e@, '\t', 0);
    }
    if t >= e.len() {
        return None;
    }
    let meta = crate::text::slice_vec(e, 0, t);
    assert(meta@ =~= e@.take(t as int));
    let toks = crate::text::split_ws(&meta);
    if toks.len() < 3 {
        return None;
    }
    assert(views(toks@)[2] == toks@[2]@);
    match crate::text::parse_unsigned_chars(&toks[2], u64::MAX) {
        Some(n) => {
            if 1 <= n && n <= 3 {
                let p = crate::text::slice_vec(e, t + 1, e.len());
                assert(p@ =~= e@.skip(t + 1));
                Some((p, n as u8))
            } else {
                None
            }
        },
        None => None,
    }
}

fn set_flag_exec(f: (bool, bool, bool), st: u8) -> (r: (bool, bool, bool))
    ensures
        r == set_flag(f, st as nat),
{
    if st == 1 {
        (true, f.1, f.2)
    } else if st == 2 {
        (f.0, true, f.2)
    } else {
        (f.0, f.1, true)
    }
}

fn table_insert(tab: &mut Vec<(String, (bool, bool, bool))>, path: Vec<char>, st: u8)
    ensures
        table_view(final(tab)@) == table_insert_from(table_view(old(tab)@), 0, path@, st as nat),
{
    let ghost tv = table_view(tab@);
    let mut i: usize = 0;
    while i < tab.len()
        invariant
            i <= tab.len(),
            tab@ == old(tab)@,
            tv == table_view(tab@),
            table_insert_from(tv, 0, path@, st as nat) == table_insert_from(tv, i as int, path@, st as nat),
        decreases tab.len() - i,
    {
        let key = crate::text::chars_of(tab[i].0.as_str());
        assert(tv[i as int].0 == key@);
        if crate::text::eq_str(&path, tab[i].0.as_str()) {
            let f = set_flag_exec(tab[i].1, st);
            let ghost new_entry = (path@, set_flag(tv[i as int].1, st as nat));
            tab.set(i, (crate::text::string_of(&path), f));
            assert(table_view(tab@) =~= tv.update(i as int, new_entry));
            return;
        }
        if lex_less(&path, &key) {
            let f = set_flag_exec((false, false, false), st);
            tab.insert(i, (crate::text::string_of(&path), f));
            assert(table_view(tab@) =~= tv.insert(i as int, (path@, set_flag((false, false, false), st as nat))));
            return;
        }
        i = i + 1;
    }
    let f = set_flag_exec((false, false, false), st);
    tab.push((crate::text::string_of(&path), f));
    assert(table_view(tab@) =~= tv.push((path@, set_flag((false, false, false), st as nat))));
}

/// The stage table of `git ls-files -u -z` output.
pub fn parse_stage_table(out: &str) -> (r: Vec<(String, (bool, bool, bool))>)
    ensures
        table_view(r@) == stage_table(out@),
{
    let es = crate::text::split_on(&crate::text::chars_of(out), '\0');
    let ghost ev = views(es@);
    let mut tab: Vec<(String, (bool, bool, bool))> = Vec::new();
    let mut i: usize = 0;
    assert(table_view(tab@) =~= stage_table_upto(ev, 0));
    while i < es.len()
        invariant
            i <= es.len(),
            ev == views(es@),
            ev == split_char(out@, '\0'),
            table_view(tab@) == stage_table_upto(ev, i as int),
        decreases es.len() - i,
    {
        assert(ev[i as int] == es@[i as int]@);
        match record_stage_exec(&es[i]) {
            Some((p, st)) => {
                table_insert(&mut tab, p, st);
            },
            None => {},
        }
        i = i + 1;
    }
    tab
}

/// Does `s` hold a NUL character?
pub fn has_nul(s: &str) -> (r: bool)
    ensures
        r == s@.contains('\0'),
{
    let cs = crate::text::chars_of(s);
    let mut i: usize = 0;
    while i < cs.len()
        invariant
            i <= cs.len(),
            cs@ == s@,
            forall|j: int| 0 <= j < i ==> cs@[j] != '\0',
        decreases cs.len() - i,
    {
        if cs[i] == '\0' {
            assert(s@[i as int] == '\0');
            return true;
        }
        i = i + 1;
    }
    false
}

fn kind_of_exec(f: (bool, bool, bool), binary: bool) -> (r: ConflictKind)
    ensures
        r == kind_of(f, binary),
{
    if f.1 && f.2 {
        if binary {
            ConflictKind::Binary
        } else if f.0 {
            ConflictKind::BothModified
        } else {
            ConflictKind::AddAdd
        }
    } else if f.0 && f.1 {
        ConflictKind::ModifyDelete
    } else if f.0 && f.2 {
        ConflictKind::DeleteModify
    } else {
        ConflictKind::BothModified
    }
}

impl Repo {
    /// Is the conflict at `path` binary (from reply `k`)?
    pub fn binary_at(&self, replies: &[Reply], k: usize, path: &str) -> (r: Flow<(bool, usize)>)
        ensures
            flow_view(r, |p: (bool, usize)| (p.0, p.1 as int)) == binary_at(replies_view(replies@), k as int, self.dir(), path@),
    {
        match self.show_stage_at(replies, k, 2, path) {
            Flow::Ask(q) => {
                return Flow::Ask(q);
            },
            Flow::Fail(e) => {
                return Flow::Fail(e);
            },
            Flow::Got(Some(b)) => {
                return Flow::Got((has_nul(b.as_str()), k + 1));
            },
            Flow::Got(None) => {},
        }
        match self.show_stage_at(replies, k + 1, 3, path) {
            Flow::Ask(q) => {
                return Flow::Ask(q);
            },
            Flow::Fail(e) => {
                return Flow::Fail(e);
            },
            Flow::Got(Some(b)) => {
                return Flow::Got((has_nul(b.as_str()), k + 2));
            },
            Flow::Got(None) => {},
        }
        match self.show_stage_at(replies, k + 2, 1, path) {
            Flow::Ask(q) => Flow::Ask(q),
            Flow::Fail(e) => Flow::Fail(e),
            Flow::Got(Some(b)) => Flow::Got((has_nul(b.as_str()), k + 3)),
            Flow::Got(None) => Flow::Got((false, k + 3)),
        }
    }

    fn classify_from(&self, replies: &[Reply], k: usize, tab: &Vec<(String, (bool, bool, bool))>, i: usize) -> (r: Flow<(Vec<ConflictFile>, usize)>)
        requires
            i <= tab.len(),
        ensures
            flow_view(r, |p: (Vec<ConflictFile>, usize)| (conflict_files_view(p.0@), p.1 as int)) == classify_from(replies_view(replies@), k as int, self.dir(), table_view(tab@), i as int),
        decreases tab.len() - i,
    {
        if i >= tab.len() {
            let v: Vec<ConflictFile> = Vec::new();
            assert(conflict_files_view(v@) =~= Seq::<(Seq<char>, ConflictKind)>::empty());
            return Flow::Got((v, k));
        }
        let ghost tv = table_view(tab@);
        let f = tab[i].1;
        let path = tab[i].0.clone();
        assert(tv[i as int] == (path@, f));
        let (bin, k1) = if f.1 && f.2 {
            match self.binary_at(replies, k, path.as_str()) {
                Flow::Ask(q) => {
                    return Flow::Ask(q);
                },
                Flow::Fail(e) => {
                    return Flow::Fail(e);
                },
                Flow::Got(p) => p,
            }
        } else {
            (false, k)
        };
        let kind = kind_of_exec(f, bin);
        match self.classify_from(replies, k1, tab, i + 1) {
            Flow::Ask(q) => Flow::Ask(q),
            Flow::Fail(e) => Flow::Fail(e),
            Flow::Got((rest, k2)) => {
                let mut v: Vec<ConflictFile> = Vec::new();
                v.push(ConflictFile { path, kind });
                let mut rest = rest;
                let ghost rv = conflict_files_view(rest@);
                v.append(&mut rest);
                assert(conflict_files_view(v@) =~= seq![(tv[i as int].0, kind)] + rv);
                Flow::Got((v, k2))
            },
        }
    }
}

impl Repo {
    /// The conflicted files and their kinds, from reply `k`.
    pub fn classify_at(&self, replies: &[Reply], k: usize) -> (r: Flow<(Vec<ConflictFile>, usize)>)
        ensures
            flow_view(r, |p: (Vec<ConflictFile>, usize)| (conflict_files_view(p.0@), p.1 as int)) == classify_at(replies_view(replies@), k as int, self.dir()),
    {
        let args = vec![s("ls-files"), s("-u"), s("-z")];
        assert(strs(args@) =~= ls_unmerged_args());
        let out = match self.git(replies, k, args) {
            Flow::Ask(q) => {
                return Flow::Ask(q);
            },
            Flow::Fail(e) => {
                return Flow::Fail(e);
            },
            Flow::Got(o) => o,
        };
        let tab = parse_stage_table(out.as_str());
        self.classify_from(replies, k + 1, &tab, 0)
    }
}

/// Lists the conflicted files with their kinds, in path order. The kind comes from the
/// set of index stages a path has (`ls-files -u`), which also catches conflicts without
/// markers (modify/delete, binary).
pub fn classify_conflicts(repo: &Repo, replies: &[Reply]) -> (r: Step<Vec<ConflictFile>>)
    ensures
        step_view(r, |v: Vec<ConflictFile>| conflict_files_view(v@)) == classify_spec(replies_view(replies@), repo.dir()),
{
    match repo.classify_at(replies, 0) {
        Flow::Ask(q) => Step::Ask(q),
        Flow::Fail(e) => Step::Done(Err(e)),
        Flow::Got((v, _)) => Step::Done(Ok(v)),
    }
}

} // verus!
