//! Structured diff: `git diff` unified output parsed into files, hunks and lines, and
//! the patches that stage or unstage one hunk or some of its lines.
//!
//! Each hunk keeps its raw text and each file its raw header, so that a hunk can be fed
//! back to `git apply --cached` (with `-R` to unstage) exactly as git printed it.
use vstd::prelude::*;
use crate::text::{starts_with, trim_end, trim, ws_tokens, split_char, parse_unsigned, find_from, concat, views};

verus! {

/// Kind of a diff line.
#[derive(Debug, Clone, Copy, PartialEq, Eq, Structural)]
pub enum LineKind {
    Context,
    Added,
    Removed,
}

/// A diff line without its leading ` `, `+` or `-`.
#[derive(Debug, Clone)]
pub struct DiffLine {
    pub kind: LineKind,
    pub content: String,
}

/// A hunk.
#[derive(Debug, Clone)]
pub struct Hunk {
    /// Old-file start line from the `@@` line.
    pub old_start: u32,
    /// New-file start line from the `@@` line.
    pub new_start: u32,
    /// The section heading after `@@ ... @@` (often a function name), maybe empty.
    pub heading: String,
    pub lines: Vec<DiffLine>,
    /// Raw text from the `@@` line to the end of the hunk.
    pub raw: String,
}

/// All changes of one file.
#[derive(Debug, Clone)]
pub struct FileDiff {
    /// Path shown (the new path; the old one for a deletion).
    pub path: String,
    /// A binary file (no line diff).
    pub binary: bool,
    pub hunks: Vec<Hunk>,
    /// Raw header text (`diff --git` up to the first `@@`).
    pub header_raw: String,
}

pub struct HunkV {
    pub old_start: u32,
    pub new_start: u32,
    pub heading: Seq<char>,
    pub lines: Seq<(LineKind, Seq<char>)>,
    pub raw: Seq<char>,
}

pub struct FileV {
    pub path: Seq<char>,
    pub binary: bool,
    pub hunks: Seq<HunkV>,
    pub header_raw: Seq<char>,
}

pub open spec fn dlines_view(v: Seq<DiffLine>) -> Seq<(LineKind, Seq<char>)> {
    v.map_values(|d: DiffLine| (d.kind, d.content@))
}

impl Hunk {
    pub open spec fn view(&self) -> HunkV {
        HunkV { old_start: self.old_start, new_start: self.new_start, heading: self.heading@, lines: dlines_view(self.lines@), raw: self.raw@ }
    }
}

pub open spec fn hunks_view(v: Seq<Hunk>) -> Seq<HunkV> {
    v.map_values(|h: Hunk| h.view())
}

impl FileDiff {
    pub open spec fn view(&self) -> FileV {
        FileV { path: self.path@, binary: self.binary, hunks: hunks_view(self.hunks@), header_raw: self.header_raw@ }
    }
}

pub open spec fn files_view(v: Seq<FileDiff>) -> Seq<FileV> {
    v.map_values(|f: FileDiff| f.view())
}

// ───────────────────────── small pieces (spec) ─────────────────────────

pub open spec fn is_hunk_start(l: Seq<char>) -> bool {
    starts_with(l, "@@"@)
}

pub open spec fn is_file_start(l: Seq<char>) -> bool {
    starts_with(l, "diff --git "@)
}

/// `s.trim_start_matches(c)`.
pub open spec fn trim_start_char(s: Seq<char>, c: char) -> Seq<char>
    decreases s.len(),
{
    if s.len() > 0 && s[0] == c {
        trim_start_char(s.drop_first(), c)
    } else {
        s
    }
}

/// `A` of `"A,B"` or `"A"`; 0 when it does not parse.
pub open spec fn first_number_spec(s: Seq<char>) -> u32 {
    match parse_unsigned(split_char(s, ',')[0], u32::MAX as nat) {
        Some(v) => v as u32,
        None => 0,
    }
}

/// `"@@ -A,B +C,D @@ heading"` as `(A, C, heading)`; zeros and an empty heading where
/// the line does not have that form.
pub open spec fn hunk_header_spec(l: Seq<char>) -> (u32, u32, Seq<char>) {
    let t = trim_end(l);
    if !starts_with(t, "@@ "@) {
        (0, 0, Seq::empty())
    } else {
        let rest = t.skip(3);
        let j = find_from(rest, " @@"@, 0);
        if j < 0 {
            (0, 0, Seq::empty())
        } else {
            let toks = ws_tokens(rest.take(j));
            let old = if toks.len() > 0 { first_number_spec(trim_start_char(toks[0], '-')) } else { 0 };
            let new = if toks.len() > 1 { first_number_spec(trim_start_char(toks[1], '+')) } else { 0 };
            (old, new, trim(rest.skip(j + 3)))
        }
    }
}

/// A diff line's content: the line without its `\n` and its first character.
pub open spec fn line_body_spec(l: Seq<char>) -> Seq<char> {
    let s = if l.len() > 0 && l.last() == '\n' { l.drop_last() } else { l };
    if s.len() >= 1 { s.skip(1) } else { Seq::empty() }
}

/// A `---`/`+++` path: line end trimmed, `a/` or `b/` removed; `/dev/null` kept.
pub open spec fn clean_path_spec(s: Seq<char>) -> Seq<char> {
    let t = trim_end(s);
    if t == "/dev/null"@ {
        t
    } else if starts_with(t, "a/"@) {
        t.skip(2)
    } else if starts_with(t, "b/"@) {
        t.skip(2)
    } else {
        t
    }
}

/// The `b/` side of `diff --git a/X b/X`.
pub open spec fn git_line_path_spec(l: Seq<char>) -> Option<Seq<char>> {
    let t = trim_end(l);
    if !starts_with(t, "diff --git "@) {
        None
    } else {
        let rest = t.skip(("diff --git "@).len() as int);
        let j = find_from(rest, " b/"@, 0);
        if j < 0 {
            None
        } else {
            Some(rest.skip(j + 3))
        }
    }
}

pub open spec fn body_kind(c: char) -> LineKind {
    if c == '+' {
        LineKind::Added
    } else if c == '-' {
        LineKind::Removed
    } else {
        LineKind::Context
    }
}

pub open spec fn is_body_line(l: Seq<char>) -> bool {
    l.len() > 0 && (l[0] == '+' || l[0] == '-' || l[0] == ' ')
}

pub open spec fn is_no_newline_line(l: Seq<char>) -> bool {
    l.len() > 0 && l[0] == '\\'
}

// ───────────────────────── structure (spec) ─────────────────────────

/// Where a hunk's body that starts at line `i` ends: at the next `@@` or `diff --git`
/// line, or at the first line that is neither a ` `/`+`/`-` line nor `\ No newline`.
pub open spec fn hunk_end(ls: Seq<Seq<char>>, i: int) -> int
    decreases ls.len() - i,
{
    if i < 0 || i >= ls.len() {
        ls.len() as int
    } else if is_hunk_start(ls[i]) || is_file_start(ls[i]) {
        i
    } else if is_body_line(ls[i]) || is_no_newline_line(ls[i]) {
        hunk_end(ls, i + 1)
    } else {
        i
    }
}

/// The display lines of body lines `a..n` (`\ No newline` lines are not shown).
pub open spec fn body_lines(ls: Seq<Seq<char>>, a: int, n: int) -> Seq<(LineKind, Seq<char>)>
    decreases n - a,
{
    if n <= a {
        Seq::empty()
    } else {
        body_lines(ls, a, n - 1) + if is_body_line(ls[n - 1]) {
            seq![(body_kind(ls[n - 1][0]), line_body_spec(ls[n - 1]))]
        } else {
            Seq::empty()
        }
    }
}

/// The hunk whose `@@` line is line `i`.
pub open spec fn hunk_at(ls: Seq<Seq<char>>, i: int) -> HunkV {
    let e = hunk_end(ls, i + 1);
    let (o, n, h) = hunk_header_spec(ls[i]);
    HunkV { old_start: o, new_start: n, heading: h, lines: body_lines(ls, i + 1, e), raw: ls[i] + concat(ls.subrange(i + 1, e)) }
}

/// Where the header of the file starting at line `start` ends (scanning from line `i`):
/// at the first `@@` line or the next `diff --git` line.
pub open spec fn header_end(ls: Seq<Seq<char>>, start: int, i: int) -> int
    decreases ls.len() - i,
{
    if i < 0 || i >= ls.len() {
        ls.len() as int
    } else if (i > start && is_file_start(ls[i])) || is_hunk_start(ls[i]) {
        i
    } else {
        header_end(ls, start, i + 1)
    }
}

/// The header facts read from lines `start..n`: binary flag, last `---` and `+++` paths.
pub struct HeaderV {
    pub binary: bool,
    pub old_path: Seq<char>,
    pub new_path: Seq<char>,
}

pub open spec fn header_fold(ls: Seq<Seq<char>>, start: int, n: int) -> HeaderV
    decreases n - start,
{
    if n <= start {
        HeaderV { binary: false, old_path: Seq::empty(), new_path: Seq::empty() }
    } else {
        let h = header_fold(ls, start, n - 1);
        let l = ls[n - 1];
        if starts_with(l, "Binary files "@) {
            HeaderV { binary: true, ..h }
        } else if starts_with(l, "--- "@) {
            HeaderV { old_path: clean_path_spec(l.skip(4)), ..h }
        } else if starts_with(l, "+++ "@) {
            HeaderV { new_path: clean_path_spec(l.skip(4)), ..h }
        } else {
            h
        }
    }
}

/// The display path: the new path, else the old one, else the `b/` side of the `diff --git` line.
pub open spec fn file_path_spec(h: HeaderV, git_line: Seq<char>) -> Seq<char> {
    if h.new_path.len() > 0 && h.new_path != "/dev/null"@ {
        h.new_path
    } else if h.old_path.len() > 0 && h.old_path != "/dev/null"@ {
        h.old_path
    } else {
        match git_line_path_spec(git_line) {
            Some(p) => p,
            None => Seq::empty(),
        }
    }
}

pub proof fn lemma_hunk_end(ls: Seq<Seq<char>>, i: int)
    requires
        0 <= i,
    ensures
        i <= hunk_end(ls, i) <= ls.len() || (i > ls.len() && hunk_end(ls, i) == ls.len()),
    decreases ls.len() - i,
{
    if i < ls.len() && !(is_hunk_start(ls[i]) || is_file_start(ls[i])) && (is_body_line(ls[i]) || is_no_newline_line(ls[i])) {
        lemma_hunk_end(ls, i + 1);
    }
}

pub proof fn lemma_header_end(ls: Seq<Seq<char>>, start: int, i: int)
    requires
        0 <= i <= ls.len(),
    ensures
        i <= header_end(ls, start, i) <= ls.len(),
    decreases ls.len() - i,
{
    if i < ls.len() && !((i > start && is_file_start(ls[i])) || is_hunk_start(ls[i])) {
        lemma_header_end(ls, start, i + 1);
    }
}

/// The hunks of a file from line `i` on, and where the file ends.
pub open spec fn file_hunks(ls: Seq<Seq<char>>, i: int) -> (Seq<HunkV>, int)
    decreases ls.len() - i,
{
    if i < 0 || i >= ls.len() {
        (Seq::empty(), ls.len() as int)
    } else if is_file_start(ls[i]) {
        (Seq::empty(), i)
    } else if is_hunk_start(ls[i]) {
        let e = hunk_end(ls, i + 1);
        proof {
            lemma_hunk_end(ls, i + 1);
        }
        let rest = file_hunks(ls, e);
        (seq![hunk_at(ls, i)] + rest.0, rest.1)
    } else {
        file_hunks(ls, i + 1)
    }
}

/// The file whose `diff --git` line is line `start`, and where it ends.
pub open spec fn file_at(ls: Seq<Seq<char>>, start: int) -> (FileV, int) {
    let he = header_end(ls, start, start);
    let h = header_fold(ls, start, he);
    let hs = file_hunks(ls, he);
    (FileV { path: file_path_spec(h, ls[start]), binary: h.binary, hunks: hs.0, header_raw: concat(ls.subrange(start, he)) }, hs.1)
}

pub proof fn lemma_file_hunks_end(ls: Seq<Seq<char>>, i: int)
    requires
        0 <= i <= ls.len(),
    ensures
        i <= file_hunks(ls, i).1 <= ls.len(),
    decreases ls.len() - i,
{
    if i < ls.len() && !is_file_start(ls[i]) {
        if is_hunk_start(ls[i]) {
            lemma_hunk_end(ls, i + 1);
            lemma_file_hunks_end(ls, hunk_end(ls, i + 1));
        } else {
            lemma_file_hunks_end(ls, i + 1);
        }
    }
}

/// A `diff --git` line is not an `@@` line.
pub proof fn lemma_file_start_not_hunk(l: Seq<char>)
    requires
        is_file_start(l),
    ensures
        !is_hunk_start(l),
{
    reveal_strlit("diff --git ");
    reveal_strlit("@@");
    assert(l.take(("diff --git "@).len() as int)[0] == 'd');
    if is_hunk_start(l) {
        assert(l.take(2)[0] == '@');
    }
}

/// The files of the diff from line `i` on; lines before the first `diff --git` are skipped.
pub open spec fn files_from(ls: Seq<Seq<char>>, i: int) -> Seq<FileV>
    decreases ls.len() - i,
{
    if i < 0 || i >= ls.len() {
        Seq::empty()
    } else if is_file_start(ls[i]) {
        proof {
            lemma_file_start_not_hunk(ls[i]);
            lemma_header_end(ls, i, i + 1);
            lemma_file_hunks_end(ls, header_end(ls, i, i + 1));
        }
        let f = file_at(ls, i);
        seq![f.0] + files_from(ls, f.1)
    } else {
        files_from(ls, i + 1)
    }
}

/// The parse of a unified diff.
pub open spec fn parse_spec(text: Seq<char>) -> Seq<FileV> {
    files_from(crate::text::lines_incl(text), 0)
}

// ───────────────────────── small pieces (exec) ─────────────────────────

fn trim_start_char_vec(s: &[char], c: char) -> (r: Vec<char>)
    ensures
        r@ == trim_start_char(s@, c),
{
    let mut i: usize = 0;
    assert(s@.skip(0) =~= s@);
    while i < s.len() && s[i] == c
        invariant
            i <= s.len(),
            trim_start_char(s@, c) == trim_start_char(s@.skip(i as int), c),
        decreases s.len() - i,
    {
        assert(s@.skip(i as int).drop_first() =~= s@.skip(i + 1));
        i = i + 1;
    }
    assert(trim_start_char(s@.skip(i as int), c) == s@.skip(i as int));
    crate::text::slice_vec(s, i, s.len())
}

/// `A` of `"A,B"` or `"A"`, 0 when it does not parse.
fn first_number(s: &[char]) -> (r: u32)
    ensures
        r == first_number_spec(s@),
{
    let parts = crate::text::split_on(s, ',');
    proof {
        crate::text::lemma_split_char_nonempty(s@, ',');
    }
    assert(views(parts@)[0] == parts@[0]@);
    match crate::text::parse_u32(&parts[0]) {
        Some(v) => v,
        None => 0,
    }
}

/// `"@@ -A,B +C,D @@ heading"` → `(A, C, heading)`.
fn parse_hunk_header(l: &[char]) -> (r: (u32, u32, Vec<char>))
    ensures
        (r.0, r.1, r.2@) == hunk_header_spec(l@),
{
    let t = crate::text::trim_end_vec(l);
    let mut old_start: u32 = 0;
    let mut new_start: u32 = 0;
    if let Some(rest) = crate::text::strip_prefix_str(&t, "@@ ") {
        proof {
            reveal_strlit("@@ ");
        }
        let pat = crate::text::chars_of(" @@");
        proof {
            reveal_strlit(" @@");
        }
        match crate::text::find_sub_from(&rest, &pat, 0) {
            Some(j) => {
                proof {
                    crate::text::lemma_find_from(rest@, pat@, 0);
                }
                let ranges = crate::text::slice_vec(&rest, 0, j);
                assert(ranges@ =~= rest@.take(j as int));
                let toks = crate::text::split_ws(&ranges);
                if toks.len() > 0 {
                    assert(views(toks@)[0] == toks@[0]@);
                    old_start = first_number(&trim_start_char_vec(&toks[0], '-'));
                }
                if toks.len() > 1 {
                    assert(views(toks@)[1] == toks@[1]@);
                    new_start = first_number(&trim_start_char_vec(&toks[1], '+'));
                }
                proof {
                    reveal_strlit(" @@");
                }
                let tail = crate::text::slice_vec(&rest, j + 3, rest.len());
                assert(tail@ =~= rest@.skip(j + 3));
                let heading = crate::text::trim_vec(&tail);
                (old_start, new_start, heading)
            },
            None => (0, 0, Vec::new()),
        }
    } else {
        (0, 0, Vec::new())
    }
}

/// The content of a diff line: without its `\n` and first character.
fn line_body(l: &[char]) -> (r: Vec<char>)
    ensures
        r@ == line_body_spec(l@),
{
    let end = if l.len() > 0 && l[l.len() - 1] == '\n' { l.len() - 1 } else { l.len() };
    if end >= 1 {
        let r = crate::text::slice_vec(l, 1, end);
        proof {
            let s = if l@.len() > 0 && l@.last() == '\n' { l@.drop_last() } else { l@ };
            assert(s =~= l@.subrange(0, end as int));
            assert(r@ =~= s.skip(1));
        }
        r
    } else {
        Vec::new()
    }
}

/// A `---`/`+++` path with `a/` or `b/` removed; `/dev/null` is kept.
fn clean_path(s: &[char]) -> (r: Vec<char>)
    ensures
        r@ == clean_path_spec(s@),
{
    let t = crate::text::trim_end_vec(s);
    if crate::text::eq_str(&t, "/dev/null") {
        return t;
    }
    if let Some(v) = crate::text::strip_prefix_str(&t, "a/") {
        proof {
            reveal_strlit("a/");
        }
        return v;
    }
    if let Some(v) = crate::text::strip_prefix_str(&t, "b/") {
        proof {
            reveal_strlit("b/");
        }
        return v;
    }
    t
}

/// The `b/` side of a `diff --git a/X b/X` line.
fn parse_path_from_git_line(l: &[char]) -> (r: Option<Vec<char>>)
    ensures
        match r {
            Some(p) => git_line_path_spec(l@) == Some(p@),
            None => git_line_path_spec(l@) is None,
        },
{
    let t = crate::text::trim_end_vec(l);
    let rest = crate::text::strip_prefix_str(&t, "diff --git ")?;
    let pat = crate::text::chars_of(" b/");
    proof {
        reveal_strlit(" b/");
    }
    match crate::text::find_sub_from(&rest, &pat, 0) {
        Some(j) => {
            proof {
                crate::text::lemma_find_from(rest@, pat@, 0);
                reveal_strlit(" b/");
            }
            let p = crate::text::slice_vec(&rest, j + 3, rest.len());
            assert(p@ =~= rest@.skip(j + 3));
            Some(p)
        },
        None => None,
    }
}

// ───────────────────────── parser (exec) ─────────────────────────

fn push_dline(v: &mut Vec<DiffLine>, kind: LineKind, content: Vec<char>)
    ensures
        dlines_view(final(v)@) == dlines_view(old(v)@).push((kind, content@)),
{
    v.push(DiffLine { kind, content: crate::text::string_of(&content) });
    assert(dlines_view(v@) =~= dlines_view(old(v)@).push((kind, content@)));
}

/// The hunk whose `@@` line is `lines[start]`, and the index where it ends.
fn parse_hunk(lines: &Vec<Vec<char>>, start: usize) -> (r: (Hunk, usize))
    requires
        start < lines.len(),
    ensures
        r.0.view() == hunk_at(views(lines@), start as int),
        r.1 as int == hunk_end(views(lines@), start + 1),
{
    let ghost ls = views(lines@);
    let header_line = &lines[start];
    assert(ls[start as int] == header_line@);
    let (old_start, new_start, heading) = parse_hunk_header(header_line);
    let mut raw: Vec<char> = Vec::new();
    crate::text::push_chars(&mut raw, header_line);
    let mut diff_lines: Vec<DiffLine> = Vec::new();
    let mut i = start + 1;
    assert(ls.subrange(start + 1, start + 1) =~= Seq::<Seq<char>>::empty());
    assert(raw@ =~= ls[start as int] + concat(ls.subrange(start + 1, i as int)));
    assert(dlines_view(diff_lines@) =~= body_lines(ls, start + 1, i as int));
    while i < lines.len()
        invariant
            start + 1 <= i <= lines.len(),
            ls == views(lines@),
            hunk_end(ls, i as int) == hunk_end(ls, start + 1),
            raw@ == ls[start as int] + concat(ls.subrange(start + 1, i as int)),
            dlines_view(diff_lines@) == body_lines(ls, start + 1, i as int),
        ensures
            hunk_end(ls, i as int) == i,
        decreases lines.len() - i,
    {
        let l = &lines[i];
        assert(ls[i as int] == l@);
        if crate::text::starts_with_str(l, "@@") || crate::text::starts_with_str(l, "diff --git ") {
            break;
        }
        let body = l.len() > 0 && (l[0] == '+' || l[0] == '-' || l[0] == ' ');
        let noeol = l.len() > 0 && l[0] == '\\';
        if !body && !noeol {
            break;
        }
        if body {
            let kind = if l[0] == '+' {
                LineKind::Added
            } else if l[0] == '-' {
                LineKind::Removed
            } else {
                LineKind::Context
            };
            push_dline(&mut diff_lines, kind, line_body(l));
        }
        let ghost before = raw@;
        crate::text::push_chars(&mut raw, l);
        proof {
            assert(ls.subrange(start + 1, i + 1) =~= ls.subrange(start + 1, i as int).push(l@));
            crate::text::lemma_concat_push(ls.subrange(start + 1, i as int), l@);
            assert(raw@ =~= ls[start as int] + concat(ls.subrange(start + 1, i + 1)));
        }
        i = i + 1;
    }
    let h = Hunk { old_start, new_start, heading: crate::text::string_of(&heading), lines: diff_lines, raw: crate::text::string_of(&raw) };
    (h, i)
}

/// The file whose `diff --git` line is `lines[start]`, and the index where it ends.
fn parse_file(lines: &Vec<Vec<char>>, start: usize) -> (r: (FileDiff, usize))
    requires
        start < lines.len(),
    ensures
        (r.0.view(), r.1 as int) == file_at(views(lines@), start as int),
{
    let ghost ls = views(lines@);
    let mut i = start;
    let mut header: Vec<char> = Vec::new();
    let mut old_path: Vec<char> = Vec::new();
    let mut new_path: Vec<char> = Vec::new();
    let mut binary = false;
    assert(ls.subrange(start as int, start as int) =~= Seq::<Seq<char>>::empty());
    while i < lines.len()
        invariant
            start <= i <= lines.len(),
            ls == views(lines@),
            header_end(ls, start as int, i as int) == header_end(ls, start as int, start as int),
            header@ == concat(ls.subrange(start as int, i as int)),
            (HeaderV { binary, old_path: old_path@, new_path: new_path@ }) == header_fold(ls, start as int, i as int),
        ensures
            header_end(ls, start as int, i as int) == i,
        decreases lines.len() - i,
    {
        let l = &lines[i];
        assert(ls[i as int] == l@);
        if i > start && crate::text::starts_with_str(l, "diff --git ") {
            break;
        }
        if crate::text::starts_with_str(l, "@@") {
            break;
        }
        if crate::text::starts_with_str(l, "Binary files ") {
            binary = true;
        } else if let Some(p) = crate::text::strip_prefix_str(l, "--- ") {
            proof {
                reveal_strlit("--- ");
            }
            old_path = clean_path(&p);
        } else if let Some(p) = crate::text::strip_prefix_str(l, "+++ ") {
            proof {
                reveal_strlit("+++ ");
            }
            new_path = clean_path(&p);
        }
        crate::text::push_chars(&mut header, l);
        proof {
            assert(ls.subrange(start as int, i + 1) =~= ls.subrange(start as int, i as int).push(l@));
            crate::text::lemma_concat_push(ls.subrange(start as int, i as int), l@);
        }
        i = i + 1;
    }
    let ghost he = i as int;
    assert(ls[start as int] == lines@[start as int]@);
    let path = if new_path.len() > 0 && !crate::text::eq_str(&new_path, "/dev/null") {
        new_path
    } else if old_path.len() > 0 && !crate::text::eq_str(&old_path, "/dev/null") {
        old_path
    } else {
        match parse_path_from_git_line(&lines[start]) {
            Some(p) => p,
            None => Vec::new(),
        }
    };
    let mut hunks: Vec<Hunk> = Vec::new();
    assert(hunks_view(hunks@) + file_hunks(ls, i as int).0 =~= file_hunks(ls, he).0);
    while i < lines.len()
        invariant
            he <= i <= lines.len(),
            ls == views(lines@),
            hunks_view(hunks@) + file_hunks(ls, i as int).0 == file_hunks(ls, he).0,
            file_hunks(ls, i as int).1 == file_hunks(ls, he).1,
        ensures
            file_hunks(ls, i as int).0 =~= Seq::<HunkV>::empty(),
            file_hunks(ls, i as int).1 == i,
        decreases lines.len() - i,
    {
        let l = &lines[i];
        assert(ls[i as int] == l@);
        if crate::text::starts_with_str(l, "diff --git ") {
            break;
        }
        if crate::text::starts_with_str(l, "@@") {
            let (h, next) = parse_hunk(lines, i);
            proof {
                lemma_hunk_end(ls, i + 1);
            }
            let ghost before = hunks_view(hunks@);
            hunks.push(h);
            assert(hunks_view(hunks@) =~= before.push(h.view()));
            assert(before + file_hunks(ls, i as int).0 =~= hunks_view(hunks@) + file_hunks(ls, next as int).0);
            i = next;
        } else {
            i = i + 1;
        }
    }
    assert(file_hunks(ls, i as int).0 =~= Seq::<HunkV>::empty());
    assert(hunks_view(hunks@) + Seq::<HunkV>::empty() =~= hunks_view(hunks@));
    let f = FileDiff {
        path: crate::text::string_of(&path),
        binary,
        hunks,
        header_raw: crate::text::string_of(&header),
    };
    (f, i)
}

/// Parses `git diff` unified output into files.
pub fn parse(diff_text: &str) -> (r: Vec<FileDiff>)
    ensures
        files_view(r@) == parse_spec(diff_text@),
{
    let lines = crate::text::lines_incl_of(&crate::text::chars_of(diff_text));
    let ghost ls = views(lines@);
    let mut files: Vec<FileDiff> = Vec::new();
    let mut i: usize = 0;
    assert(files_view(files@) + files_from(ls, 0) =~= files_from(ls, 0));
    while i < lines.len()
        invariant
            i <= lines.len(),
            ls == views(lines@),
            ls == crate::text::lines_incl(diff_text@),
            files_view(files@) + files_from(ls, i as int) == files_from(ls, 0),
        decreases lines.len() - i,
    {
        assert(ls[i as int] == lines@[i as int]@);
        if crate::text::starts_with_str(&lines[i], "diff --git ") {
            let (f, next) = parse_file(&lines, i);
            proof {
                lemma_header_end(ls, i as int, i + 1);
                lemma_file_hunks_end(ls, header_end(ls, i as int, i + 1));
                assert(header_end(ls, i as int, i as int) == header_end(ls, i as int, i + 1));
            }
            let ghost before = files_view(files@);
            files.push(f);
            assert(files_view(files@) =~= before.push(f.view()));
            assert(before + files_from(ls, i as int) =~= files_view(files@) + files_from(ls, next as int));
            i = next;
        } else {
            i = i + 1;
        }
    }
    assert(files_view(files@) + Seq::<FileV>::empty() =~= files_view(files@));
    files
}

// ───────────────────────── patches ─────────────────────────

/// The patch of one hunk: the file header and the hunk's raw text, ending with a newline.
pub open spec fn patch_spec(f: FileV, h: HunkV) -> Seq<char> {
    let p = f.header_raw + h.raw;
    if p.len() > 0 && p.last() == '\n' {
        p
    } else {
        p.push('\n')
    }
}

/// The patch that stages or unstages exactly `hunk` of `file`.
pub fn patch_of(file: &FileDiff, hunk: &Hunk) -> (r: String)
    ensures
        r@ == patch_spec(file.view(), hunk.view()),
{
    let mut p = crate::text::chars_of(file.header_raw.as_str());
    crate::text::push_chars(&mut p, &crate::text::chars_of(hunk.raw.as_str()));
    if !(p.len() > 0 && p[p.len() - 1] == '\n') {
        p.push('\n');
    }
    crate::text::string_of(&p)
}

pub open spec fn selected(sel: Seq<usize>, i: int) -> bool {
    exists|j: int| 0 <= j < sel.len() && sel[j] == i
}

/// One patch line: marker, content, newline.
pub open spec fn patch_line(marker: char, content: Seq<char>) -> Seq<char> {
    seq![marker] + content + seq!['\n']
}

/// The body and line counts of a partial patch over the first `n` lines: unselected
/// added lines are dropped, unselected removed lines become context.
pub open spec fn partial_body(lines: Seq<(LineKind, Seq<char>)>, sel: Seq<usize>, n: int) -> (Seq<char>, nat, nat)
    decreases n,
{
    if n <= 0 {
        (Seq::empty(), 0, 0)
    } else {
        let (b, o, w) = partial_body(lines, sel, n - 1);
        let (k, c) = lines[n - 1];
        match k {
            LineKind::Context => (b + patch_line(' ', c), o + 1, w + 1),
            LineKind::Added => if selected(sel, n - 1) {
                (b + patch_line('+', c), o, w + 1)
            } else {
                (b, o, w)
            },
            LineKind::Removed => if selected(sel, n - 1) {
                (b + patch_line('-', c), o + 1, w)
            } else {
                (b + patch_line(' ', c), o + 1, w + 1)
            },
        }
    }
}

/// The patch holding only the selected lines (indices into the hunk's lines), with the
/// `@@` line's counts recomputed.
pub open spec fn partial_patch_spec(f: FileV, h: HunkV, sel: Seq<usize>) -> Seq<char> {
    let (body, o, w) = partial_body(h.lines, sel, h.lines.len() as int);
    f.header_raw + "@@ -"@ + crate::text::decimal(h.old_start as nat) + ","@ + crate::text::decimal(o) + " +"@
        + crate::text::decimal(h.new_start as nat) + ","@ + crate::text::decimal(w) + " @@\n"@ + body
}

proof fn lemma_partial_counts(lines: Seq<(LineKind, Seq<char>)>, sel: Seq<usize>, n: int)
    requires
        0 <= n,
    ensures
        partial_body(lines, sel, n).1 <= n,
        partial_body(lines, sel, n).2 <= n,
    decreases n,
{
    if n > 0 {
        lemma_partial_counts(lines, sel, n - 1);
    }
}

fn is_selected(sel: &[usize], i: usize) -> (r: bool)
    ensures
        r == selected(sel@, i as int),
{
    let mut j: usize = 0;
    while j < sel.len()
        invariant
            j <= sel.len(),
            forall|m: int| 0 <= m < j ==> sel@[m] != i,
        decreases sel.len() - j,
    {
        if sel[j] == i {
            return true;
        }
        j = j + 1;
    }
    false
}

fn push_line(buf: &mut Vec<char>, marker: char, content: &String)
    ensures
        final(buf)@ == old(buf)@ + patch_line(marker, content@),
{
    buf.push(marker);
    crate::text::push_chars(buf, &crate::text::chars_of(content.as_str()));
    buf.push('\n');
    assert(buf@ =~= old(buf)@ + patch_line(marker, content@));
}

/// The patch that stages (or, applied in reverse, unstages) only the selected lines of a hunk.
pub fn partial_patch(file: &FileDiff, hunk: &Hunk, selected: &[usize]) -> (r: String)
    requires
        hunk.lines.len() <= u32::MAX,
    ensures
        r@ == partial_patch_spec(file.view(), hunk.view(), selected@),
{
    let ghost lv = dlines_view(hunk.lines@);
    let mut body: Vec<char> = Vec::new();
    let mut old_count: u32 = 0;
    let mut new_count: u32 = 0;
    let mut i: usize = 0;
    while i < hunk.lines.len()
        invariant
            i <= hunk.lines.len(),
            hunk.lines.len() <= u32::MAX,
            lv == dlines_view(hunk.lines@),
            (body@, old_count as nat, new_count as nat) == partial_body(lv, selected@, i as int),
        decreases hunk.lines.len() - i,
    {
        proof {
            lemma_partial_counts(lv, selected@, i as int);
        }
        let line = &hunk.lines[i];
        assert(lv[i as int] == (line.kind, line.content@));
        match line.kind {
            LineKind::Context => {
                push_line(&mut body, ' ', &line.content);
                old_count = old_count + 1;
                new_count = new_count + 1;
            },
            LineKind::Added => {
                if is_selected(selected, i) {
                    push_line(&mut body, '+', &line.content);
                    new_count = new_count + 1;
                }
            },
            LineKind::Removed => {
                if is_selected(selected, i) {
                    push_line(&mut body, '-', &line.content);
                    old_count = old_count + 1;
                } else {
                    push_line(&mut body, ' ', &line.content);
                    old_count = old_count + 1;
                    new_count = new_count + 1;
                }
            },
        }
        i = i + 1;
    }
    let mut patch = crate::text::chars_of(file.header_raw.as_str());
    crate::text::push_str(&mut patch, "@@ -");
    crate::text::push_decimal(&mut patch, hunk.old_start as u64);
    crate::text::push_str(&mut patch, ",");
    crate::text::push_decimal(&mut patch, old_count as u64);
    crate::text::push_str(&mut patch, " +");
    crate::text::push_decimal(&mut patch, hunk.new_start as u64);
    crate::text::push_str(&mut patch, ",");
    crate::text::push_decimal(&mut patch, new_count as u64);
    crate::text::push_str(&mut patch, " @@\n");
    crate::text::push_chars(&mut patch, &body);
    crate::text::string_of(&patch)
}

// ───────────────────────── untracked files ─────────────────────────

/// What `String::from_utf8_lossy` makes of some bytes.
pub uninterp spec fn utf8_lossy(b: Seq<u8>) -> Seq<char>;

/// `String::from_utf8_lossy`: the bytes decoded as UTF-8, invalid sequences replaced.
/// Its result is named by `utf8_lossy`; nothing more of it is stated here.
#[verifier::external_body]
fn from_utf8_lossy(b: &[u8]) -> (s: String)
    ensures
        s@ == utf8_lossy(b@),
{
    String::from_utf8_lossy(b).into_owned()
}

/// The header of a new-file patch for `path`.
pub open spec fn new_file_header(path: Seq<char>) -> Seq<char> {
    "diff --git a/"@ + path + " b/"@ + path + "\nnew file mode 100644\n--- /dev/null\n+++ b/"@ + path + "\n"@
}

pub open spec fn added_raw(ls: Seq<Seq<char>>, n: int) -> Seq<char>
    decreases n,
{
    if n <= 0 {
        Seq::empty()
    } else {
        added_raw(ls, n - 1) + patch_line('+', ls[n - 1])
    }
}

/// The diff of an untracked file with content `text` (already decoded): one hunk adding
/// every line, or no hunk for an empty file.
pub open spec fn untracked_text_spec(path: Seq<char>, text: Seq<char>) -> FileV {
    let header = new_file_header(path);
    if text.len() == 0 {
        FileV { path, binary: false, hunks: Seq::empty(), header_raw: header }
    } else {
        let ls = crate::text::lines(text);
        let raw = "@@ -0,0 +1,"@ + crate::text::decimal(ls.len()) + " @@\n"@ + added_raw(ls, ls.len() as int)
            + if text.last() == '\n' { Seq::empty() } else { "\\ No newline at end of file\n"@ };
        FileV {
            path,
            binary: false,
            hunks: seq![HunkV {
                old_start: 0,
                new_start: 1,
                heading: Seq::empty(),
                lines: ls.map_values(|l: Seq<char>| (LineKind::Added, l)),
                raw,
            }],
            header_raw: header,
        }
    }
}

/// The diff of an untracked file whose bytes are `content` (git's diff leaves untracked
/// files out, so they are shown as wholly added): binary when a NUL byte occurs.
pub open spec fn untracked_spec(path: Seq<char>, content: Seq<u8>) -> FileV {
    if content.contains(0u8) {
        FileV { path, binary: true, hunks: Seq::empty(), header_raw: new_file_header(path) }
    } else {
        untracked_text_spec(path, utf8_lossy(content))
    }
}

/// The whole-file-added diff of an untracked file, from its path and bytes. Its patch is a
/// standard new-file patch, so `git apply --cached` stages it like `git add`.
pub fn untracked_diff(path: &str, content: &[u8]) -> (r: FileDiff)
    ensures
        r.view() == untracked_spec(path@, content@),
{
    let mut header: Vec<char> = Vec::new();
    crate::text::push_str(&mut header, "diff --git a/");
    crate::text::push_str(&mut header, path);
    crate::text::push_str(&mut header, " b/");
    crate::text::push_str(&mut header, path);
    crate::text::push_str(&mut header, "\nnew file mode 100644\n--- /dev/null\n+++ b/");
    crate::text::push_str(&mut header, path);
    crate::text::push_str(&mut header, "\n");
    assert(header@ =~= new_file_header(path@));
    let mut has_nul = false;
    let mut k: usize = 0;
    while k < content.len()
        invariant
            k <= content.len(),
            has_nul == exists|m: int| 0 <= m < k && content@[m] == 0u8,
        decreases content.len() - k,
    {
        if content[k] == 0u8 {
            has_nul = true;
        }
        k = k + 1;
    }
    assert(has_nul == content@.contains(0u8));
    let p = crate::text::string_of(&crate::text::chars_of(path));
    if has_nul {
        let r = FileDiff { path: p, binary: true, hunks: Vec::new(), header_raw: crate::text::string_of(&header) };
        assert(hunks_view(r.hunks@) =~= Seq::<HunkV>::empty());
        return r;
    }
    let text = crate::text::chars_of(from_utf8_lossy(content).as_str());
    if text.len() == 0 {
        let r = FileDiff { path: p, binary: false, hunks: Vec::new(), header_raw: crate::text::string_of(&header) };
        assert(hunks_view(r.hunks@) =~= Seq::<HunkV>::empty());
        return r;
    }
    let ends_nl = text[text.len() - 1] == '\n';
    let ls = crate::text::lines_of(&text);
    let ghost lv = views(ls@);
    let n = ls.len();
    let mut raw: Vec<char> = Vec::new();
    crate::text::push_str(&mut raw, "@@ -0,0 +1,");
    crate::text::push_decimal(&mut raw, n as u64);
    crate::text::push_str(&mut raw, " @@\n");
    let ghost raw0 = raw@;
    let mut dl: Vec<DiffLine> = Vec::new();
    let mut i: usize = 0;
    while i < n
        invariant
            i <= n,
            n == ls.len(),
            lv == views(ls@),
            raw@ == raw0 + added_raw(lv, i as int),
            dlines_view(dl@) == lv.take(i as int).map_values(|l: Seq<char>| (LineKind::Added, l)),
        decreases n - i,
    {
        let line = &ls[i];
        assert(lv[i as int] == line@);
        raw.push('+');
        crate::text::push_chars(&mut raw, line);
        raw.push('\n');
        assert(raw@ =~= raw0 + added_raw(lv, i + 1));
        let ghost before = dlines_view(dl@);
        let copy = crate::text::slice_vec(line, 0, line.len());
        assert(copy@ =~= line@);
        push_dline(&mut dl, LineKind::Added, copy);
        assert(dlines_view(dl@) == before.push((LineKind::Added, line@)));
        assert(lv.take(i + 1).map_values(|l: Seq<char>| (LineKind::Added, l)) =~= lv.take(i as int).map_values(|l: Seq<char>| (LineKind::Added, l)).push((LineKind::Added, line@)));
        i = i + 1;
    }
    assert(lv.take(n as int) =~= lv);
    if !ends_nl {
        crate::text::push_str(&mut raw, "\\ No newline at end of file\n");
    }
    let h = Hunk { old_start: 0, new_start: 1, heading: String::new(), lines: dl, raw: crate::text::string_of(&raw) };
    let mut hunks: Vec<Hunk> = Vec::new();
    hunks.push(h);
    let r = FileDiff { path: p, binary: false, hunks, header_raw: crate::text::string_of(&header) };
    assert(hunks_view(r.hunks@) =~= seq![h.view()]);
    r
}

/// Lines of the first `n` that are on the old side (context and removed lines).
pub open spec fn old_side_count(lines: Seq<(LineKind, Seq<char>)>, n: int) -> nat
    decreases n,
{
    if n <= 0 {
        0
    } else {
        old_side_count(lines, n - 1) + if lines[n - 1].0 != LineKind::Added { 1nat } else { 0nat }
    }
}

/// A partial patch always carries the hunk's whole old side: its old-side count is the
/// number of context and removed lines, whatever is selected; and with nothing selected
/// both sides have the same count (the patch changes nothing).
pub proof fn law_partial_patch_old_side(lines: Seq<(LineKind, Seq<char>)>, sel: Seq<usize>, n: int)
    requires
        0 <= n <= lines.len(),
    ensures
        partial_body(lines, sel, n).1 == old_side_count(lines, n),
        sel.len() == 0 ==> partial_body(lines, sel, n).1 == partial_body(lines, sel, n).2,
    decreases n,
{
    if n > 0 {
        law_partial_patch_old_side(lines, sel, n - 1);
    }
}

// ───────────────────────── reading a hunk header ─────────────────────────

/// A line count as a hunk header writes it: `,<n>`, or nothing when git leaves it out.
pub open spec fn count_part(n: Seq<char>) -> Seq<char> {
    if n.len() == 0 { Seq::empty() } else { ","@ + n }
}

/// `s` has no whitespace.
pub open spec fn no_ws(s: Seq<char>) -> bool {
    forall|i: int| 0 <= i < s.len() ==> !crate::text::is_ws(#[trigger] s[i])
}

proof fn lemma_digits_no_ws(a: Seq<char>)
    requires
        crate::text::all_digits(a),
    ensures
        no_ws(a),
        !a.contains(','),
        !a.contains(' '),
{
    assert forall|i: int| 0 <= i < a.len() implies !crate::text::is_ws(#[trigger] a[i]) by {
        assert(crate::text::is_digit(a[i]));
    }
    if a.contains(',') {
        let i = choose|i: int| 0 <= i < a.len() && a[i] == ',';
        assert(crate::text::is_digit(a[i]));
    }
    if a.contains(' ') {
        let i = choose|i: int| 0 <= i < a.len() && a[i] == ' ';
        assert(crate::text::is_digit(a[i]));
    }
}

proof fn lemma_ws_scan_word(s: Seq<char>, n: int)
    requires
        0 <= n <= s.len(),
        forall|i: int| 0 <= i < n ==> !crate::text::is_ws(#[trigger] s[i]),
    ensures
        crate::text::ws_scan(s, n) == (Seq::<Seq<char>>::empty(), s.take(n)),
    decreases n,
{
    if n > 0 {
        lemma_ws_scan_word(s, n - 1);
        assert(s.take(n - 1).push(s[n - 1]) =~= s.take(n));
    } else {
        assert(s.take(0) =~= Seq::<char>::empty());
    }
}

proof fn lemma_ws_scan_second(s: Seq<char>, k: int, n: int)
    requires
        0 < k < n <= s.len(),
        crate::text::is_ws(s[k]),
        forall|i: int| 0 <= i < s.len() && i != k ==> !crate::text::is_ws(#[trigger] s[i]),
    ensures
        crate::text::ws_scan(s, n) == (seq![s.take(k)], s.subrange(k + 1, n)),
    decreases n,
{
    if n == k + 1 {
        lemma_ws_scan_word(s, k);
        assert(s.subrange(k + 1, n) =~= Seq::<char>::empty());
    } else {
        lemma_ws_scan_second(s, k, n - 1);
        assert(s.subrange(k + 1, n - 1).push(s[n - 1]) =~= s.subrange(k + 1, n));
    }
}

/// Two words separated by one space split into those two words.
proof fn lemma_two_words(u: Seq<char>, v: Seq<char>)
    requires
        u.len() > 0,
        v.len() > 0,
        no_ws(u),
        no_ws(v),
    ensures
        ws_tokens(u + " "@ + v) == seq![u, v],
{
    reveal_strlit(" ");
    let s = u + " "@ + v;
    assert forall|i: int| 0 <= i < s.len() && i != u.len() implies !crate::text::is_ws(#[trigger] s[i]) by {
        if i < u.len() {
            assert(s[i] == u[i]);
        } else {
            assert(s[i] == v[i - u.len() - 1]);
        }
    }
    lemma_ws_scan_second(s, u.len() as int, s.len() as int);
    assert(s.take(u.len() as int) =~= u);
    assert(s.subrange(u.len() as int + 1, s.len() as int) =~= v);
}

/// The number in front of a count: `a` of `a` followed by `count_part(b)`.
proof fn lemma_first_number(a: Seq<char>, b: Seq<char>)
    requires
        a.len() > 0,
        crate::text::all_digits(a),
        crate::text::digits_val(a) <= u32::MAX,
        crate::text::all_digits(b),
    ensures
        first_number_spec(a + count_part(b)) == crate::text::digits_val(a) as u32,
{
    reveal_strlit(",");
    lemma_digits_no_ws(a);
    let x = a + count_part(b);
    crate::text::lemma_index_of_from_bounds(x, ',', 0);
    let i = crate::text::index_of(x, ',');
    if i < a.len() {
        assert(x[i] == a[i]);
        assert(a.contains(','));
    }
    if b.len() > 0 {
        assert(x[a.len() as int] == ',');
        assert(i == a.len());
        assert(split_char(x, ',')[0] == x.take(i));
    } else {
        assert(x =~= a);
        assert(i == a.len());
        assert(split_char(x, ',')[0] == x);
    }
    assert(split_char(x, ',')[0] =~= a);
    assert(crate::text::is_digit(a[0]));
    assert(crate::text::unsigned_digits(a) == a);
}

/// `<sign><digits>[,<digits>]`: one word that loses its sign to `trim_start_char`.
proof fn lemma_signed_word(sign: char, a: Seq<char>, b: Seq<char>)
    requires
        sign == '-' || sign == '+',
        a.len() > 0,
        crate::text::all_digits(a),
        crate::text::all_digits(b),
    ensures
        no_ws(seq![sign] + a + count_part(b)),
        (seq![sign] + a + count_part(b))[0] == sign,
        trim_start_char(seq![sign] + a + count_part(b), sign) == a + count_part(b),
{
    reveal_strlit(",");
    lemma_digits_no_ws(a);
    lemma_digits_no_ws(b);
    let w = seq![sign] + a + count_part(b);
    assert forall|i: int| 0 <= i < w.len() implies !crate::text::is_ws(#[trigger] w[i]) by {
        if i == 0 {
        } else if i < 1 + a.len() {
            assert(w[i] == a[i - 1]);
        } else if i == 1 + a.len() {
        } else {
            assert(w[i] == b[i - a.len() - 2]);
        }
    }
    assert(w.drop_first() =~= a + count_part(b));
    assert((a + count_part(b))[0] == a[0]);
    assert(crate::text::is_digit(a[0]));
    assert(trim_start_char(a + count_part(b), sign) == a + count_part(b));
    assert(trim_start_char(w, sign) == trim_start_char(w.drop_first(), sign));
}

/// In `u + " " + v + " @@" + h`, where only the space between `u` and `v` is one and `v`
/// starts with `+`, the first `" @@"` follows `v`.
proof fn lemma_ranges_end(u: Seq<char>, v: Seq<char>, h: Seq<char>)
    requires
        v.len() > 0,
        v[0] == '+',
        no_ws(u),
        no_ws(v),
    ensures
        find_from(u + " "@ + v + " @@"@ + h, " @@"@, 0) == u.len() + 1 + v.len(),
{
    reveal_strlit(" ");
    reveal_strlit(" @@");
    let range = u + " "@ + v;
    let rest = range + " @@"@ + h;
    crate::text::lemma_find_from(rest, " @@"@, 0);
    assert(crate::text::contains_at(rest, " @@"@, range.len() as int)) by {
        assert(rest.subrange(range.len() as int, range.len() as int + 3) =~= " @@"@);
    }
    let j = find_from(rest, " @@"@, 0);
    if j != range.len() as int {
        assert(0 <= j < range.len());
        assert(rest.subrange(j, j + 3) == " @@"@);
        assert(rest.subrange(j, j + 3)[0] == rest[j] && rest.subrange(j, j + 3)[1] == rest[j + 1]);
        if j < u.len() {
            assert(rest[j] == u[j]);
        } else if j == u.len() {
            assert(rest[j + 1] == v[0]);
        } else {
            assert(rest[j] == v[j - u.len() - 1]);
        }
    }
}

/// A hunk header `@@ -A[,B] +C[,D] @@ heading` gives the hunk's start on the old side as
/// `A`, its start on the new side as `C` (the number after `+`), and the heading trimmed.
pub proof fn law_hunk_header_starts(a: Seq<char>, b: Seq<char>, c: Seq<char>, d: Seq<char>, h: Seq<char>)
    requires
        a.len() > 0,
        c.len() > 0,
        crate::text::all_digits(a),
        crate::text::all_digits(b),
        crate::text::all_digits(c),
        crate::text::all_digits(d),
        crate::text::digits_val(a) <= u32::MAX,
        crate::text::digits_val(c) <= u32::MAX,
        h.len() == 0 || !crate::text::is_ws(h.last()),
    ensures
        hunk_header_spec("@@ -"@ + a + count_part(b) + " +"@ + c + count_part(d) + " @@"@ + h)
            == (crate::text::digits_val(a) as u32, crate::text::digits_val(c) as u32, trim(h)),
{
    reveal_strlit("@@ -");
    reveal_strlit(" +");
    reveal_strlit(" @@");
    reveal_strlit("@@ ");
    reveal_strlit(" ");
    let u = seq!['-'] + a + count_part(b);
    let v = seq!['+'] + c + count_part(d);
    let range = u + " "@ + v;
    let l = "@@ -"@ + a + count_part(b) + " +"@ + c + count_part(d) + " @@"@ + h;
    assert(l =~= "@@ "@ + range + " @@"@ + h);
    lemma_signed_word('-', a, b);
    lemma_signed_word('+', c, d);
    assert(crate::text::trim_end(l) == l) by {
        if h.len() > 0 {
            assert(l.last() == h.last());
        } else {
            assert(l.last() == '@');
        }
    }
    assert(l.take(3) =~= "@@ "@);
    let rest = l.skip(3);
    assert(rest =~= range + " @@"@ + h);
    lemma_ranges_end(u, v, h);
    let j = range.len() as int;
    assert(rest.take(j) =~= range);
    lemma_two_words(u, v);
    lemma_first_number(a, b);
    lemma_first_number(c, d);
    assert(rest.skip(j + 3) =~= h);
}

/// The hunk that starts at a header line `@@ -A[,B] +C[,D] @@ heading` starts at `A` on the
/// old side and at `C` on the new side, under that heading.
pub proof fn law_hunk_starts_from_its_header(ls: Seq<Seq<char>>, i: int, a: Seq<char>, b: Seq<char>, c: Seq<char>, d: Seq<char>, h: Seq<char>)
    requires
        0 <= i < ls.len(),
        ls[i] == "@@ -"@ + a + count_part(b) + " +"@ + c + count_part(d) + " @@"@ + h,
        a.len() > 0,
        c.len() > 0,
        crate::text::all_digits(a),
        crate::text::all_digits(b),
        crate::text::all_digits(c),
        crate::text::all_digits(d),
        crate::text::digits_val(a) <= u32::MAX,
        crate::text::digits_val(c) <= u32::MAX,
        h.len() == 0 || !crate::text::is_ws(h.last()),
    ensures
        hunk_at(ls, i).old_start == crate::text::digits_val(a) as u32,
        hunk_at(ls, i).new_start == crate::text::digits_val(c) as u32,
        hunk_at(ls, i).heading == trim(h),
{
    law_hunk_header_starts(a, b, c, d, h);
}

} // verus!
