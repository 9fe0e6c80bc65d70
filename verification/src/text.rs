//! Character-level text primitives shared by the git output parsers.
//!
//! Every parser first turns git's output into a `Vec<char>` and then works on
//! character slices; the spec functions here describe the std string operations
//! (`split`, `lines`, `trim`, `parse`, ...) on `Seq<char>`, the view of a string.
use vstd::prelude::*;

verus! {

// ───────────────────────── spec vocabulary ─────────────────────────

/// Index of the first `c` in `s` at or after `i`, or `s.len()` if there is none.
pub open spec fn index_of_from(s: Seq<char>, c: char, i: int) -> int
    decreases s.len() - i,
{
    if i >= s.len() || i < 0 {
        s.len() as int
    } else if s[i] == c {
        i
    } else {
        index_of_from(s, c, i + 1)
    }
}

/// Index of the first `c` in `s`, or `s.len()` if `c` does not occur.
pub open spec fn index_of(s: Seq<char>, c: char) -> int {
    index_of_from(s, c, 0)
}

/// `s.split(c)`: the pieces between occurrences of `c` (always at least one).
pub open spec fn split_char(s: Seq<char>, c: char) -> Seq<Seq<char>>
    decreases s.len(),
{
    let i = index_of(s, c);
    if i >= s.len() {
        seq![s]
    } else {
        proof {
            lemma_index_of_from_bounds(s, c, 0);
        }
        seq![s.take(i)] + split_char(s.skip(i + 1), c)
    }
}

/// `s.split_inclusive('\n')`: pieces that keep their line terminator; no empty last piece.
pub open spec fn lines_incl(s: Seq<char>) -> Seq<Seq<char>>
    decreases s.len(),
{
    if s.len() == 0 {
        Seq::empty()
    } else {
        let i = index_of(s, '\n');
        if i >= s.len() {
            seq![s]
        } else {
            proof {
                lemma_index_of_from_bounds(s, '\n', 0);
            }
            seq![s.take(i + 1)] + lines_incl(s.skip(i + 1))
        }
    }
}

/// A line with its `\n` (and a `\r` right before it) removed, as `str::lines` does.
pub open spec fn strip_eol(l: Seq<char>) -> Seq<char> {
    if l.len() > 0 && l.last() == '\n' {
        let m = l.drop_last();
        if m.len() > 0 && m.last() == '\r' {
            m.drop_last()
        } else {
            m
        }
    } else {
        l
    }
}

/// `s.lines()`.
pub open spec fn lines(s: Seq<char>) -> Seq<Seq<char>> {
    lines_incl(s).map_values(|l: Seq<char>| strip_eol(l))
}

/// `char::is_whitespace` (the Unicode `White_Space` property).
pub open spec fn is_ws(c: char) -> bool {
    c == '\t' || c == '\n' || c == '\u{0B}' || c == '\u{0C}' || c == '\r' || c == ' '
        || c == '\u{85}' || c == '\u{A0}' || c == '\u{1680}' || ('\u{2000}' <= c
        && c <= '\u{200A}') || c == '\u{2028}' || c == '\u{2029}' || c == '\u{202F}'
        || c == '\u{205F}' || c == '\u{3000}'
}

/// `str::trim_start`.
pub open spec fn trim_start(s: Seq<char>) -> Seq<char>
    decreases s.len(),
{
    if s.len() > 0 && is_ws(s[0]) {
        trim_start(s.drop_first())
    } else {
        s
    }
}

/// `str::trim_end`.
pub open spec fn trim_end(s: Seq<char>) -> Seq<char>
    decreases s.len(),
{
    if s.len() > 0 && is_ws(s.last()) {
        trim_end(s.drop_last())
    } else {
        s
    }
}

/// `str::trim`.
pub open spec fn trim(s: Seq<char>) -> Seq<char> {
    trim_end(trim_start(s))
}

/// `s.starts_with(p)`.
pub open spec fn starts_with(s: Seq<char>, p: Seq<char>) -> bool {
    p.len() <= s.len() && s.take(p.len() as int) == p
}

/// `s.ends_with(p)`.
pub open spec fn ends_with(s: Seq<char>, p: Seq<char>) -> bool {
    p.len() <= s.len() && s.skip(s.len() - p.len()) == p
}

/// `s.contains(p)` for a non-empty or empty pattern.
pub open spec fn contains_at(s: Seq<char>, p: Seq<char>, i: int) -> bool {
    0 <= i && i + p.len() <= s.len() && s.subrange(i, i + p.len()) == p
}

pub open spec fn contains(s: Seq<char>, p: Seq<char>) -> bool {
    exists|i: int| contains_at(s, p, i)
}

pub open spec fn is_digit(c: char) -> bool {
    '0' <= c && c <= '9'
}

pub open spec fn digit_val(c: char) -> nat {
    (c as int - '0' as int) as nat
}

pub open spec fn all_digits(s: Seq<char>) -> bool {
    forall|i: int| 0 <= i < s.len() ==> is_digit(#[trigger] s[i])
}

/// The value of a run of decimal digits.
pub open spec fn digits_val(s: Seq<char>) -> nat
    decreases s.len(),
{
    if s.len() == 0 {
        0
    } else {
        digits_val(s.drop_last()) * 10 + digit_val(s.last())
    }
}

/// The digits after an optional leading `+`, as `u32::from_str` and friends read them.
pub open spec fn unsigned_digits(s: Seq<char>) -> Seq<char> {
    if s.len() > 1 && s[0] == '+' {
        s.drop_first()
    } else {
        s
    }
}

/// `s.parse::<uN>()` where `max` is `uN::MAX`: `None` on an empty, non-digit or too large input.
pub open spec fn parse_unsigned(s: Seq<char>, max: nat) -> Option<nat> {
    let d = unsigned_digits(s);
    if d.len() > 0 && all_digits(d) && digits_val(d) <= max {
        Some(digits_val(d))
    } else {
        None
    }
}

/// `s.parse::<i64>()`.
pub open spec fn parse_i64(s: Seq<char>) -> Option<int> {
    if s.len() > 1 && s[0] == '-' {
        let d = s.drop_first();
        if all_digits(d) && digits_val(d) <= 0x8000_0000_0000_0000 {
            Some(-(digits_val(d) as int))
        } else {
            None
        }
    } else {
        match parse_unsigned(s, 0x7FFF_FFFF_FFFF_FFFF) {
            Some(v) => Some(v as int),
            None => None,
        }
    }
}

/// Decimal notation of `n` (`n.to_string()`).
pub open spec fn decimal(n: nat) -> Seq<char>
    decreases n,
{
    if n < 10 {
        seq![digit_char(n)]
    } else {
        decimal(n / 10).push(digit_char(n % 10))
    }
}

pub open spec fn digit_char(d: nat) -> char {
    (('0' as int) + d) as char
}

/// `c.to_ascii_lowercase()`.
pub open spec fn lower_char(c: char) -> char {
    if 'A' <= c && c <= 'Z' {
        ((c as int) + 32) as char
    } else {
        c
    }
}

/// `s.to_ascii_lowercase()`.
pub open spec fn lower(s: Seq<char>) -> Seq<char> {
    s.map_values(|c: char| lower_char(c))
}

// ───────────────────────── conversions ─────────────────────────

/// The characters of `s`, in order.
pub fn chars_of(s: &str) -> (v: Vec<char>)
    ensures
        v@ == s@,
{
    let mut v: Vec<char> = Vec::new();
    broadcast use vstd::string::group_string_axioms;

    for c in it: s.chars()
        invariant
            v@ == it.seq().take(it.index() as int),
            it.seq() == s@,
    {
        v.push(c);
    }
    v
}

/// Appends one character to a string (`String::push`).
#[verifier::external_body]
fn push_char(s: &mut String, c: char)
    ensures
        final(s)@ == old(s)@.push(c),
{
    s.push(c);
}

/// A string holding exactly the characters `cs`.
pub fn string_of(cs: &[char]) -> (s: String)
    ensures
        s@ == cs@,
{
    let mut s = String::new();
    let mut i: usize = 0;
    while i < cs.len()
        invariant
            i <= cs.len(),
            s@ == cs@.take(i as int),
        decreases cs.len() - i,
    {
        push_char(&mut s, cs[i]);
        assert(cs@.take(i + 1) == cs@.take(i as int).push(cs@[i as int]));
        i = i + 1;
    }
    assert(cs@.take(cs.len() as int) == cs@);
    s
}

/// The string with the characters of `cs[lo..hi]`.
pub fn string_range(cs: &[char], lo: usize, hi: usize) -> (s: String)
    requires
        lo <= hi <= cs.len(),
    ensures
        s@ == cs@.subrange(lo as int, hi as int),
{
    let mut s = String::new();
    let mut i: usize = lo;
    while i < hi
        invariant
            lo <= i <= hi <= cs.len(),
            s@ == cs@.subrange(lo as int, i as int),
        decreases hi - i,
    {
        push_char(&mut s, cs[i]);
        assert(cs@.subrange(lo as int, i + 1) == cs@.subrange(lo as int, i as int).push(
            cs@[i as int],
        ));
        i = i + 1;
    }
    s
}

/// A copy of `cs[lo..hi]`.
pub fn slice_vec(cs: &[char], lo: usize, hi: usize) -> (v: Vec<char>)
    requires
        lo <= hi <= cs.len(),
    ensures
        v@ == cs@.subrange(lo as int, hi as int),
{
    let mut v: Vec<char> = Vec::new();
    let mut i: usize = lo;
    while i < hi
        invariant
            lo <= i <= hi <= cs.len(),
            v@ == cs@.subrange(lo as int, i as int),
        decreases hi - i,
    {
        v.push(cs[i]);
        assert(cs@.subrange(lo as int, i + 1) == cs@.subrange(lo as int, i as int).push(
            cs@[i as int],
        ));
        i = i + 1;
    }
    v
}

/// Appends the characters of `s` to `out`.
pub fn push_str(out: &mut Vec<char>, s: &str)
    ensures
        final(out)@ == old(out)@ + s@,
{
    let cs = chars_of(s);
    push_chars(out, &cs);
}

/// Appends `cs` to `out`.
pub fn push_chars(out: &mut Vec<char>, cs: &[char])
    ensures
        final(out)@ == old(out)@ + cs@,
{
    let mut i: usize = 0;
    while i < cs.len()
        invariant
            i <= cs.len(),
            out@ == old(out)@ + cs@.take(i as int),
        decreases cs.len() - i,
    {
        out.push(cs[i]);
        assert(cs@.take(i + 1) == cs@.take(i as int).push(cs@[i as int]));
        i = i + 1;
    }
    assert(cs@.take(cs.len() as int) == cs@);
}

// ───────────────────────── searching and splitting ─────────────────────────

/// First index of `c` in `s[from..]`, or `s.len()`.
pub fn find_char_from(s: &[char], c: char, from: usize) -> (r: usize)
    requires
        from <= s.len(),
    ensures
        r as int == index_of_from(s@, c, from as int),
        from <= r <= s.len(),
{
    let mut i = from;
    while i < s.len()
        invariant
            from <= i <= s.len(),
            index_of_from(s@, c, from as int) == index_of_from(s@, c, i as int),
        decreases s.len() - i,
    {
        if s[i] == c {
            return i;
        }
        i = i + 1;
    }
    i
}

pub proof fn lemma_index_of_from_bounds(s: Seq<char>, c: char, i: int)
    requires
        0 <= i,
    ensures
        i <= index_of_from(s, c, i) <= s.len() || (i > s.len() && index_of_from(s, c, i)
            == s.len()),
        index_of_from(s, c, i) < s.len() ==> s[index_of_from(s, c, i)] == c,
        forall|j: int| i <= j < index_of_from(s, c, i) ==> s[j] != c,
    decreases s.len() - i,
{
    if i < s.len() && s[i] != c {
        lemma_index_of_from_bounds(s, c, i + 1);
    }
}

/// Shifting the search window: searching `s.skip(k)` from `i` is searching `s` from `i + k`.
pub proof fn lemma_index_of_from_skip(s: Seq<char>, c: char, k: int, i: int)
    requires
        0 <= k <= s.len(),
        0 <= i,
    ensures
        index_of_from(s.skip(k), c, i) + k == index_of_from(s, c, i + k),
    decreases s.len() - k - i,
{
    if i < s.len() - k && s.skip(k)[i] != c {
        lemma_index_of_from_skip(s, c, k, i + 1);
    }
}

/// The views of a sequence of character vectors.
pub open spec fn views(v: Seq<Vec<char>>) -> Seq<Seq<char>> {
    v.map_values(|x: Vec<char>| x@)
}

/// `s.split(c)`, each piece copied out.
pub fn split_on(s: &[char], c: char) -> (r: Vec<Vec<char>>)
    ensures
        views(r@) == split_char(s@, c),
{
    let mut r: Vec<Vec<char>> = Vec::new();
    let mut start: usize = 0;
    assert(s@.skip(0) == s@);
    assert(views(r@) =~= Seq::<Seq<char>>::empty());
    loop
        invariant
            start <= s.len(),
            views(r@) + split_char(s@.skip(start as int), c) == split_char(s@, c),
        decreases s.len() - start,
    {
        let i = find_char_from(s, c, start);
        proof {
            lemma_index_of_from_skip(s@, c, start as int, 0);
        }
        let piece = slice_vec(s, start, i);
        let ghost rest = s@.skip(start as int);
        let ghost old_r = views(r@);
        proof {
            lemma_index_of_from_bounds(rest, c, 0);
        }
        if i >= s.len() {
            assert(piece@ == rest);
            r.push(piece);
            assert(views(r@) =~= old_r.push(piece@));
            assert(split_char(rest, c) == seq![rest]);
            assert(old_r + seq![rest] =~= old_r.push(rest));
            return r;
        }
        proof {
            assert(rest.take(i - start) == piece@);
            assert(rest.skip(i - start + 1) =~= s@.skip(i + 1));
        }
        r.push(piece);
        assert(views(r@) =~= old_r.push(piece@));
        assert(split_char(rest, c) == seq![piece@] + split_char(s@.skip(i + 1), c));
        assert(old_r + (seq![piece@] + split_char(s@.skip(i + 1), c)) =~= old_r.push(piece@)
            + split_char(s@.skip(i + 1), c));
        start = i + 1;
    }
}



/// First index `j >= i` where `p` occurs in `s`, or `-1`.
pub open spec fn find_from(s: Seq<char>, p: Seq<char>, i: int) -> int
    decreases s.len() + 1 - i,
{
    if i < 0 || i + p.len() > s.len() {
        -1
    } else if s.subrange(i, i + p.len()) == p {
        i
    } else {
        find_from(s, p, i + 1)
    }
}

pub proof fn lemma_find_from(s: Seq<char>, p: Seq<char>, i: int)
    requires
        0 <= i,
    ensures
        find_from(s, p, i) == -1 || (i <= find_from(s, p, i) && contains_at(
            s,
            p,
            find_from(s, p, i),
        )),
        forall|j: int| i <= j && (find_from(s, p, i) == -1 || j < find_from(s, p, i)) ==> !contains_at(s, p, j),
    decreases s.len() + 1 - i,
{
    if i + p.len() <= s.len() && s.subrange(i, i + p.len()) != p {
        lemma_find_from(s, p, i + 1);
    }
}

/// Whether `s` contains `p` somewhere.
pub proof fn lemma_contains_find(s: Seq<char>, p: Seq<char>)
    ensures
        contains(s, p) <==> find_from(s, p, 0) != -1,
{
    lemma_find_from(s, p, 0);
    if contains(s, p) {
        let j = choose|j: int| contains_at(s, p, j);
        assert(contains_at(s, p, j));
    }
    if find_from(s, p, 0) != -1 {
        assert(contains_at(s, p, find_from(s, p, 0)));
    }
}

/// Does `p` occur in `s` at position `i`?
pub fn matches_at(s: &[char], p: &[char], i: usize) -> (r: bool)
    ensures
        r == contains_at(s@, p@, i as int),
{
    if p.len() > s.len() || i > s.len() - p.len() {
        return false;
    }
    let mut k: usize = 0;
    while k < p.len()
        invariant
            i + p.len() <= s.len(),
            k <= p.len(),
            forall|m: int| 0 <= m < k ==> s@[i + m] == p@[m],
        decreases p.len() - k,
    {
        if s[i + k] != p[k] {
            assert(s@.subrange(i as int, i + p.len())[k as int] != p@[k as int]);
            return false;
        }
        k = k + 1;
    }
    assert(s@.subrange(i as int, i + p.len()) =~= p@);
    true
}

/// `s[from..].find(p)` as an absolute index, `None` if there is no occurrence.
pub fn find_sub_from(s: &[char], p: &[char], from: usize) -> (r: Option<usize>)
    requires
        from <= s.len(),
    ensures
        match r {
            Some(j) => j as int == find_from(s@, p@, from as int),
            None => find_from(s@, p@, from as int) == -1,
        },
{
    if p.len() > s.len() {
        assert(find_from(s@, p@, from as int) == -1);
        return None;
    }
    let last = s.len() - p.len();
    let mut i = from;
    while i <= last
        invariant
            from <= i,
            last == s.len() - p.len(),
            find_from(s@, p@, from as int) == find_from(s@, p@, i as int),
        decreases last + 1 - i,
    {
        if matches_at(s, p, i) {
            return Some(i);
        }
        if i == last {
            assert(find_from(s@, p@, i + 1) == -1);
            return None;
        }
        i = i + 1;
    }
    None
}

/// `s.contains(p)`.
pub fn contains_chars(s: &[char], p: &[char]) -> (r: bool)
    ensures
        r == contains(s@, p@),
{
    proof {
        lemma_contains_find(s@, p@);
    }
    find_sub_from(s, p, 0).is_some()
}

/// `s.contains(p)` for a string pattern.
pub fn contains_str(s: &[char], p: &str) -> (r: bool)
    ensures
        r == contains(s@, p@),
{
    let pc = chars_of(p);
    contains_chars(s, &pc)
}

/// `s.starts_with(p)`.
pub fn starts_with_chars(s: &[char], p: &[char]) -> (r: bool)
    ensures
        r == starts_with(s@, p@),
{
    let r = matches_at(s, p, 0);
    proof {
        if p@.len() <= s@.len() {
            assert(s@.subrange(0, p@.len() as int) == s@.take(p@.len() as int));
        }
    }
    r
}

/// `s.starts_with(p)` for a string pattern.
pub fn starts_with_str(s: &[char], p: &str) -> (r: bool)
    ensures
        r == starts_with(s@, p@),
{
    let pc = chars_of(p);
    starts_with_chars(s, &pc)
}

/// `s.ends_with(p)` for a string pattern.
pub fn ends_with_str(s: &[char], p: &str) -> (r: bool)
    ensures
        r == ends_with(s@, p@),
{
    let pc = chars_of(p);
    if pc.len() > s.len() {
        return false;
    }
    let r = matches_at(s, &pc, s.len() - pc.len());
    proof {
        assert(s@.subrange(s@.len() - pc@.len(), s@.len() as int) == s@.skip(
            s@.len() - pc@.len(),
        ));
    }
    r
}

/// `s.strip_prefix(p)`.
pub fn strip_prefix_str(s: &[char], p: &str) -> (r: Option<Vec<char>>)
    ensures
        match r {
            Some(v) => starts_with(s@, p@) && v@ == s@.skip(p@.len() as int),
            None => !starts_with(s@, p@),
        },
{
    let pc = chars_of(p);
    if starts_with_chars(s, &pc) {
        let v = slice_vec(s, pc.len(), s.len());
        assert(v@ =~= s@.skip(p@.len() as int));
        Some(v)
    } else {
        None
    }
}

/// Chars equal to a string literal?
pub fn eq_str(s: &[char], p: &str) -> (r: bool)
    ensures
        r == (s@ == p@),
{
    let pc = chars_of(p);
    if pc.len() != s.len() {
        return false;
    }
    let r = matches_at(s, &pc, 0);
    proof {
        assert(s@.subrange(0, s@.len() as int) == s@);
    }
    r
}

/// `str::trim_start` as a start index.
pub fn trim_start_index(s: &[char]) -> (r: usize)
    ensures
        r <= s.len(),
        s@.skip(r as int) == trim_start(s@),
{
    let mut i: usize = 0;
    assert(s@.skip(0) == s@);
    while i < s.len() && is_white(s[i])
        invariant
            i <= s.len(),
            trim_start(s@.skip(i as int)) == trim_start(s@),
        decreases s.len() - i,
    {
        assert(s@.skip(i as int).drop_first() =~= s@.skip(i + 1));
        i = i + 1;
    }
    i
}

/// `str::trim_end` as an end index.
pub fn trim_end_index(s: &[char], lo: usize) -> (r: usize)
    requires
        lo <= s.len(),
    ensures
        lo <= r <= s.len(),
        s@.subrange(lo as int, r as int) == trim_end(s@.subrange(lo as int, s.len() as int)),
{
    let mut j: usize = s.len();
    while j > lo && is_white(s[j - 1])
        invariant
            lo <= j <= s.len(),
            trim_end(s@.subrange(lo as int, j as int)) == trim_end(
                s@.subrange(lo as int, s.len() as int),
            ),
        decreases j,
    {
        assert(s@.subrange(lo as int, j as int).drop_last() =~= s@.subrange(
            lo as int,
            j - 1,
        ));
        j = j - 1;
    }
    j
}

/// `str::trim`.
pub fn trim_vec(s: &[char]) -> (r: Vec<char>)
    ensures
        r@ == trim(s@),
{
    let a = trim_start_index(s);
    let b = trim_end_index(s, a);
    assert(s@.subrange(a as int, s.len() as int) == s@.skip(a as int));
    slice_vec(s, a, b)
}

/// `str::trim_end`.
pub fn trim_end_vec(s: &[char]) -> (r: Vec<char>)
    ensures
        r@ == trim_end(s@),
{
    let b = trim_end_index(s, 0);
    assert(s@.subrange(0, s.len() as int) == s@);
    slice_vec(s, 0, b)
}

/// `str::trim_start`.
pub fn trim_start_vec(s: &[char]) -> (r: Vec<char>)
    ensures
        r@ == trim_start(s@),
{
    let a = trim_start_index(s);
    slice_vec(s, a, s.len())
}

/// `char::is_whitespace`.
pub fn is_white(c: char) -> (r: bool)
    ensures
        r == is_ws(c),
{
    c == '\t' || c == '\n' || c == '\u{0B}' || c == '\u{0C}' || c == '\r' || c == ' ' || c
        == '\u{85}' || c == '\u{A0}' || c == '\u{1680}' || ('\u{2000}' <= c && c <= '\u{200A}')
        || c == '\u{2028}' || c == '\u{2029}' || c == '\u{202F}' || c == '\u{205F}' || c
        == '\u{3000}'
}

/// `s.lines()`, each line copied out.
pub fn lines_of(s: &[char]) -> (r: Vec<Vec<char>>)
    ensures
        views(r@) == lines(s@),
{
    let mut r: Vec<Vec<char>> = Vec::new();
    let mut start: usize = 0;
    assert(s@.skip(0) == s@);
    assert(views(r@) =~= Seq::<Seq<char>>::empty());
    while start < s.len()
        invariant
            start <= s.len(),
            views(r@) + lines(s@.skip(start as int)) == lines(s@),
        decreases s.len() - start,
    {
        let i = find_char_from(s, '\n', start);
        let ghost rest = s@.skip(start as int);
        proof {
            lemma_index_of_from_skip(s@, '\n', start as int, 0);
            lemma_index_of_from_bounds(rest, '\n', 0);
        }
        let end = if i < s.len() { i + 1 } else { i };
        let ghost piece = s@.subrange(start as int, end as int);
        let mut hi = end;
        if hi > start && s[hi - 1] == '\n' {
            hi = hi - 1;
            if hi > start && s[hi - 1] == '\r' {
                hi = hi - 1;
            }
        }
        let line = slice_vec(s, start, hi);
        proof {
            if i < s.len() {
                assert(rest.take(i - start + 1) =~= piece);
                assert(rest.skip(i - start + 1) =~= s@.skip(i + 1));
                assert(lines_incl(rest) == seq![piece] + lines_incl(s@.skip(i + 1)));
            } else {
                assert(rest =~= piece);
                assert(s@.skip(end as int) =~= Seq::<char>::empty());
                assert(lines_incl(rest) == seq![piece]);
                assert(lines_incl(s@.skip(end as int)) =~= Seq::<Seq<char>>::empty());
                assert(seq![piece] + lines_incl(s@.skip(end as int)) =~= seq![piece]);
            }
            assert(line@ =~= strip_eol(piece));
            assert(lines(rest) =~= seq![strip_eol(piece)] + lines(s@.skip(end as int)));
        }
        let ghost old_r = views(r@);
        r.push(line);
        assert(views(r@) =~= old_r.push(line@));
        assert(old_r + (seq![line@] + lines(s@.skip(end as int))) =~= old_r.push(line@) + lines(
            s@.skip(end as int),
        ));
        start = end;
    }
    assert(s@.skip(start as int) =~= Seq::<char>::empty());
    assert(lines(s@.skip(start as int)) =~= Seq::<Seq<char>>::empty());
    assert(views(r@) + Seq::<Seq<char>>::empty() =~= views(r@));
    r
}


pub proof fn lemma_digits_val_take(s: Seq<char>, i: int)
    requires
        0 <= i < s.len(),
    ensures
        digits_val(s.take(i + 1)) == digits_val(s.take(i)) * 10 + digit_val(s[i]),
{
    assert(s.take(i + 1).drop_last() =~= s.take(i));
}

/// Value of the digit run `s[lo..hi]` if it is all digits and at most `max`.
pub fn digits_value(s: &[char], lo: usize, hi: usize, max: u64) -> (r: Option<u64>)
    requires
        lo <= hi <= s.len(),
    ensures
        match r {
            Some(v) => all_digits(s@.subrange(lo as int, hi as int)) && digits_val(
                s@.subrange(lo as int, hi as int),
            ) <= max && v == digits_val(s@.subrange(lo as int, hi as int)),
            None => !(all_digits(s@.subrange(lo as int, hi as int)) && digits_val(
                s@.subrange(lo as int, hi as int),
            ) <= max),
        },
{
    let ghost d = s@.subrange(lo as int, hi as int);
    let mut acc: u64 = 0;
    let mut i = lo;
    assert(d.take(0) =~= Seq::<char>::empty());
    while i < hi
        invariant
            lo <= i <= hi <= s.len(),
            d == s@.subrange(lo as int, hi as int),
            all_digits(d.take(i - lo)),
            acc == digits_val(d.take(i - lo)),
            acc <= max,
        decreases hi - i,
    {
        let c = s[i];
        proof {
            lemma_digits_val_take(d, i - lo);
            assert(d[i - lo] == c);
        }
        if !('0' <= c && c <= '9') {
            assert(!is_digit(d[i - lo]));
            return None;
        }
        let dv = (c as u64) - ('0' as u64);
        if dv > max || acc > (max - dv) / 10 {
            proof {
                if dv <= max {
                    assert(acc * 10 + dv > max) by (nonlinear_arith)
                        requires
                            acc > (max - dv) / 10,
                            dv <= max,
                    ;
                }
                lemma_digits_monotone(d, i - lo + 1);
            }
            return None;
        }
        assert(acc * 10 + dv <= max) by (nonlinear_arith)
            requires
                acc <= (max - dv) / 10,
                dv <= max,
        ;
        acc = acc * 10 + dv;
        proof {
            assert forall|m: int| 0 <= m < i + 1 - lo implies is_digit(#[trigger] d.take(i + 1 - lo)[m]) by {
                if m < i - lo {
                    assert(d.take(i + 1 - lo)[m] == d.take(i - lo)[m]);
                }
            }
        }
        i = i + 1;
    }
    assert(d.take(hi - lo) =~= d);
    Some(acc)
}

/// A digit-only prefix bounds the value of the whole digit run from below.
pub proof fn lemma_digits_monotone(d: Seq<char>, k: int)
    requires
        0 <= k <= d.len(),
    ensures
        all_digits(d) ==> digits_val(d.take(k)) <= digits_val(d),
    decreases d.len() - k,
{
    if k < d.len() && all_digits(d) {
        lemma_digits_monotone(d, k + 1);
        lemma_digits_val_take(d, k);
    }
    if k == d.len() {
        assert(d.take(k) =~= d);
    }
}

/// `s.parse::<u64>()`-style parse with the type's maximum `max` (`u8`, `u32`, `u64`, `usize`).
pub fn parse_unsigned_chars(s: &[char], max: u64) -> (r: Option<u64>)
    ensures
        match r {
            Some(v) => parse_unsigned(s@, max as nat) == Some(v as nat),
            None => parse_unsigned(s@, max as nat) is None,
        },
{
    let lo: usize = if s.len() > 1 && s[0] == '+' { 1 } else { 0 };
    proof {
        if lo == 1 {
            assert(unsigned_digits(s@) =~= s@.subrange(1, s@.len() as int));
        } else {
            assert(unsigned_digits(s@) =~= s@.subrange(0, s@.len() as int));
        }
    }
    if lo == s.len() {
        return None;
    }
    digits_value(s, lo, s.len(), max)
}

/// `s.parse::<u32>()`.
pub fn parse_u32(s: &[char]) -> (r: Option<u32>)
    ensures
        match r {
            Some(v) => parse_unsigned(s@, u32::MAX as nat) == Some(v as nat),
            None => parse_unsigned(s@, u32::MAX as nat) is None,
        },
{
    match parse_unsigned_chars(s, u32::MAX as u64) {
        Some(v) => Some(v as u32),
        None => None,
    }
}

/// `s.parse::<i64>()`.
pub fn parse_i64_chars(s: &[char]) -> (r: Option<i64>)
    ensures
        match r {
            Some(v) => parse_i64(s@) == Some(v as int),
            None => parse_i64(s@) is None,
        },
{
    if s.len() > 1 && s[0] == '-' {
        assert(s@.drop_first() =~= s@.subrange(1, s@.len() as int));
        match digits_value(s, 1, s.len(), 0x8000_0000_0000_0000) {
            Some(v) => {
                if v == 0x8000_0000_0000_0000 {
                    Some(i64::MIN)
                } else {
                    Some(-(v as i64))
                }
            },
            None => None,
        }
    } else {
        match parse_unsigned_chars(s, 0x7FFF_FFFF_FFFF_FFFF) {
            Some(v) => Some(v as i64),
            None => None,
        }
    }
}

/// Appends the decimal notation of `n`.
pub fn push_decimal(out: &mut Vec<char>, n: u64)
    ensures
        final(out)@ == old(out)@ + decimal(n as nat),
    decreases n,
{
    if n >= 10 {
        push_decimal(out, n / 10);
    }
    let d = (n % 10) as u32;
    let c = char_of_digit(d);
    out.push(c);
    proof {
        if n >= 10 {
            assert(decimal(n as nat) == decimal((n / 10) as nat).push(digit_char((n % 10) as nat)));
        } else {
            assert(decimal(n as nat) == seq![digit_char(n as nat)]);
        }
    }
}

/// The character of a single decimal digit.
pub fn char_of_digit(d: u32) -> (c: char)
    requires
        d < 10,
    ensures
        c == digit_char(d as nat),
{
    if d == 0 { '0' } else if d == 1 { '1' } else if d == 2 { '2' } else if d == 3 { '3' }
    else if d == 4 { '4' } else if d == 5 { '5' } else if d == 6 { '6' } else if d == 7 { '7' }
    else if d == 8 { '8' } else { '9' }
}

/// `c.to_ascii_lowercase()`.
pub fn lower_char_exec(c: char) -> (r: char)
    ensures
        r == lower_char(c),
{
    if 'A' <= c && c <= 'Z' {
        let u = (c as u32) + 32;
        proof {
            assert(u <= 0x7f);
        }
        u as u8 as char
    } else {
        c
    }
}

/// `s.to_ascii_lowercase()`.
pub fn lower_vec(s: &[char]) -> (r: Vec<char>)
    ensures
        r@ == lower(s@),
{
    let mut r: Vec<char> = Vec::new();
    let mut i: usize = 0;
    while i < s.len()
        invariant
            i <= s.len(),
            r@ == lower(s@.take(i as int)),
        decreases s.len() - i,
    {
        let c = lower_char_exec(s[i]);
        r.push(c);
        assert(lower(s@.take(i + 1)) =~= lower(s@.take(i as int)).push(lower_char(s@[i as int])));
        i = i + 1;
    }
    assert(s@.take(s.len() as int) =~= s@);
    r
}


/// `s.split_inclusive('\n')`, each piece copied out.
pub fn lines_incl_of(s: &[char]) -> (r: Vec<Vec<char>>)
    ensures
        views(r@) == lines_incl(s@),
        forall|k: int| 0 <= k < r@.len() ==> (#[trigger] r@[k])@.len() > 0,
{
    let mut r: Vec<Vec<char>> = Vec::new();
    let mut start: usize = 0;
    assert(s@.skip(0) == s@);
    assert(views(r@) =~= Seq::<Seq<char>>::empty());
    while start < s.len()
        invariant
            start <= s.len(),
            views(r@) + lines_incl(s@.skip(start as int)) == lines_incl(s@),
            forall|k: int| 0 <= k < r@.len() ==> (#[trigger] r@[k])@.len() > 0,
        decreases s.len() - start,
    {
        let i = find_char_from(s, '\n', start);
        let ghost rest = s@.skip(start as int);
        proof {
            lemma_index_of_from_skip(s@, '\n', start as int, 0);
            lemma_index_of_from_bounds(rest, '\n', 0);
        }
        let end = if i < s.len() { i + 1 } else { i };
        let line = slice_vec(s, start, end);
        proof {
            if i < s.len() {
                assert(rest.take(i - start + 1) =~= line@);
                assert(rest.skip(i - start + 1) =~= s@.skip(i + 1));
            } else {
                assert(rest =~= line@);
                assert(s@.skip(end as int) =~= Seq::<char>::empty());
                assert(lines_incl(s@.skip(end as int)) =~= Seq::<Seq<char>>::empty());
                assert(seq![line@] + lines_incl(s@.skip(end as int)) =~= seq![line@]);
            }
            assert(lines_incl(rest) == seq![line@] + lines_incl(s@.skip(end as int)));
        }
        let ghost old_r = views(r@);
        r.push(line);
        assert(views(r@) =~= old_r.push(line@));
        assert(old_r + (seq![line@] + lines_incl(s@.skip(end as int))) =~= old_r.push(line@)
            + lines_incl(s@.skip(end as int)));
        start = end;
    }
    assert(s@.skip(start as int) =~= Seq::<char>::empty());
    assert(lines_incl(s@.skip(start as int)) =~= Seq::<Seq<char>>::empty());
    assert(views(r@) + Seq::<Seq<char>>::empty() =~= views(r@));
    r
}

/// Concatenation of a sequence of lines.
pub open spec fn concat(s: Seq<Seq<char>>) -> Seq<char>
    decreases s.len(),
{
    if s.len() == 0 {
        Seq::empty()
    } else {
        concat(s.drop_last()) + s.last()
    }
}

pub proof fn lemma_concat_push(s: Seq<Seq<char>>, x: Seq<char>)
    ensures
        concat(s.push(x)) == concat(s) + x,
{
    assert(s.push(x).drop_last() =~= s);
}

pub proof fn lemma_concat_append(s: Seq<Seq<char>>, t: Seq<Seq<char>>)
    ensures
        concat(s + t) == concat(s) + concat(t),
    decreases t.len(),
{
    if t.len() == 0 {
        assert(s + t =~= s);
        assert(concat(s) + Seq::<char>::empty() =~= concat(s));
    } else {
        lemma_concat_append(s, t.drop_last());
        assert((s + t).drop_last() =~= s + t.drop_last());
        assert(concat(s) + concat(t.drop_last()) + t.last() =~= concat(s) + (concat(t.drop_last()) + t.last()));
    }
}

/// Appends the concatenation of `lines[lo..hi]` to `out`.
pub fn push_lines(out: &mut Vec<char>, lines: &Vec<Vec<char>>, lo: usize, hi: usize)
    requires
        lo <= hi <= lines.len(),
    ensures
        final(out)@ == old(out)@ + concat(views(lines@).subrange(lo as int, hi as int)),
{
    let mut i = lo;
    assert(views(lines@).subrange(lo as int, lo as int) =~= Seq::<Seq<char>>::empty());
    assert(old(out)@ + Seq::<char>::empty() =~= old(out)@);
    while i < hi
        invariant
            lo <= i <= hi <= lines.len(),
            out@ == old(out)@ + concat(views(lines@).subrange(lo as int, i as int)),
        decreases hi - i,
    {
        push_chars(out, &lines[i]);
        proof {
            assert(views(lines@).subrange(lo as int, i + 1) =~= views(lines@).subrange(lo as int, i as int).push(lines@[i as int]@));
            lemma_concat_push(views(lines@).subrange(lo as int, i as int), lines@[i as int]@);
        }
        i = i + 1;
    }
}

/// Joining the lines of `s.split_inclusive('\n')` gives `s` back.
pub proof fn lemma_concat_lines_incl(s: Seq<char>)
    ensures
        concat(lines_incl(s)) == s,
    decreases s.len(),
{
    if s.len() == 0 {
        assert(concat(lines_incl(s)) =~= s);
    } else {
        let i = index_of(s, '\n');
        lemma_index_of_from_bounds(s, '\n', 0);
        if i >= s.len() {
            assert(seq![s].drop_last() =~= Seq::<Seq<char>>::empty());
            assert(concat(Seq::<Seq<char>>::empty()) == Seq::<char>::empty());
            assert(Seq::<char>::empty() + s =~= s);
            assert(concat(seq![s]) =~= s);
        } else {
            let a = s.take(i + 1);
            let rest = s.skip(i + 1);
            lemma_concat_lines_incl(rest);
            lemma_concat_append(seq![a], lines_incl(rest));
            assert(seq![a].drop_last() =~= Seq::<Seq<char>>::empty());
            assert(concat(Seq::<Seq<char>>::empty()) == Seq::<char>::empty());
            assert(Seq::<char>::empty() + a =~= a);
            assert(concat(seq![a]) =~= a);
            assert(a + rest =~= s);
        }
    }
}

/// `s.trim_end_matches(c)`.
pub open spec fn trim_end_char(s: Seq<char>, c: char) -> Seq<char>
    decreases s.len(),
{
    if s.len() > 0 && s.last() == c {
        trim_end_char(s.drop_last(), c)
    } else {
        s
    }
}

/// `s.trim_end_matches(c)`, copied out.
pub fn trim_end_char_vec(s: &[char], c: char) -> (r: Vec<char>)
    ensures
        r@ == trim_end_char(s@, c),
{
    let mut n = s.len();
    assert(s@.take(s.len() as int) =~= s@);
    while n > 0 && s[n - 1] == c
        invariant
            n <= s.len(),
            trim_end_char(s@, c) == trim_end_char(s@.take(n as int), c),
        decreases n,
    {
        assert(s@.take(n as int).drop_last() =~= s@.take(n - 1));
        n = n - 1;
    }
    assert(s@.take(s.len() as int) =~= s@) by {}
    assert(trim_end_char(s@.take(n as int), c) == s@.take(n as int));
    assert(s@.take(n as int) =~= s@.subrange(0, n as int));
    slice_vec(s, 0, n)
}

/// Copies each piece into a `String`.
pub fn strings_of(v: &Vec<Vec<char>>) -> (r: Vec<String>)
    ensures
        r@.map_values(|x: String| x@) == views(v@),
{
    let mut r: Vec<String> = Vec::new();
    let mut i: usize = 0;
    while i < v.len()
        invariant
            i <= v.len(),
            r@.map_values(|x: String| x@) == views(v@).take(i as int),
        decreases v.len() - i,
    {
        let ghost before = r@.map_values(|x: String| x@);
        let x = string_of(&v[i]);
        r.push(x);
        assert(r@.map_values(|x: String| x@) =~= before.push(v@[i as int]@));
        assert(views(v@).take(i + 1) =~= views(v@).take(i as int).push(v@[i as int]@));
        i = i + 1;
    }
    assert(views(v@).take(v.len() as int) =~= views(v@));
    r
}

/// `s.splitn(n, c)` for `n >= 1`: at most `n` pieces, the last one holding the rest.
pub open spec fn splitn_char(s: Seq<char>, n: nat, c: char) -> Seq<Seq<char>>
    decreases n,
{
    if n <= 1 {
        seq![s]
    } else {
        let i = index_of(s, c);
        if i >= s.len() {
            seq![s]
        } else {
            seq![s.take(i)] + splitn_char(s.skip(i + 1), (n - 1) as nat, c)
        }
    }
}

/// `s.splitn(n, c)`, each piece copied out.
pub fn splitn_on(s: &[char], n: usize, c: char) -> (r: Vec<Vec<char>>)
    requires
        n >= 1,
    ensures
        views(r@) == splitn_char(s@, n as nat, c),
{
    let mut r: Vec<Vec<char>> = Vec::new();
    let mut start: usize = 0;
    let mut left: usize = n;
    assert(s@.skip(0) =~= s@);
    assert(views(r@) =~= Seq::<Seq<char>>::empty());
    loop
        invariant
            start <= s.len(),
            1 <= left <= n,
            views(r@) + splitn_char(s@.skip(start as int), left as nat, c) == splitn_char(s@, n as nat, c),
        decreases left,
    {
        let ghost rest = s@.skip(start as int);
        let ghost old_r = views(r@);
        if left == 1 {
            let piece = slice_vec(s, start, s.len());
            assert(piece@ =~= rest);
            r.push(piece);
            assert(views(r@) =~= old_r + seq![rest]);
            return r;
        }
        let i = find_char_from(s, c, start);
        proof {
            lemma_index_of_from_skip(s@, c, start as int, 0);
            lemma_index_of_from_bounds(rest, c, 0);
        }
        if i >= s.len() {
            let piece = slice_vec(s, start, s.len());
            assert(piece@ =~= rest);
            r.push(piece);
            assert(views(r@) =~= old_r + seq![rest]);
            return r;
        }
        let piece = slice_vec(s, start, i);
        proof {
            assert(rest.take(i - start) =~= piece@);
            assert(rest.skip(i - start + 1) =~= s@.skip(i + 1));
        }
        r.push(piece);
        assert(views(r@) =~= old_r.push(piece@));
        assert(old_r + (seq![piece@] + splitn_char(s@.skip(i + 1), (left - 1) as nat, c)) =~= old_r.push(piece@)
            + splitn_char(s@.skip(i + 1), (left - 1) as nat, c));
        start = i + 1;
        left = left - 1;
    }
}

/// Scanning `s[..n]` for whitespace-separated tokens: the finished tokens and the open one.
pub open spec fn ws_scan(s: Seq<char>, n: int) -> (Seq<Seq<char>>, Seq<char>)
    decreases n,
{
    if n <= 0 {
        (Seq::empty(), Seq::empty())
    } else {
        let (toks, cur) = ws_scan(s, n - 1);
        if is_ws(s[n - 1]) {
            if cur.len() > 0 {
                (toks.push(cur), Seq::empty())
            } else {
                (toks, Seq::empty())
            }
        } else {
            (toks, cur.push(s[n - 1]))
        }
    }
}

/// `s.split_whitespace()`.
pub open spec fn ws_tokens(s: Seq<char>) -> Seq<Seq<char>> {
    let (toks, cur) = ws_scan(s, s.len() as int);
    if cur.len() > 0 {
        toks.push(cur)
    } else {
        toks
    }
}

/// `s.split_whitespace()`, each token copied out.
pub fn split_ws(s: &[char]) -> (r: Vec<Vec<char>>)
    ensures
        views(r@) == ws_tokens(s@),
{
    let mut toks: Vec<Vec<char>> = Vec::new();
    let mut cur: Vec<char> = Vec::new();
    let mut i: usize = 0;
    while i < s.len()
        invariant
            i <= s.len(),
            (views(toks@), cur@) == ws_scan(s@, i as int),
        decreases s.len() - i,
    {
        let ghost before = views(toks@);
        if is_white(s[i]) {
            if cur.len() > 0 {
                let t = cur;
                cur = Vec::new();
                toks.push(t);
                assert(views(toks@) =~= before.push(t@));
            } else {
                cur = Vec::new();
            }
            assert(cur@ =~= Seq::<char>::empty());
        } else {
            cur.push(s[i]);
        }
        i = i + 1;
    }
    if cur.len() > 0 {
        let ghost before = views(toks@);
        let t = cur;
        toks.push(t);
        assert(views(toks@) =~= before.push(t@));
    }
    toks
}

/// `split` always yields at least one piece.
pub proof fn lemma_split_char_nonempty(s: Seq<char>, c: char)
    ensures
        split_char(s, c).len() >= 1,
    decreases s.len(),
{
    let i = index_of(s, c);
    if i < s.len() {
        lemma_index_of_from_bounds(s, c, 0);
        lemma_split_char_nonempty(s.skip(i + 1), c);
    }
}


/// `s[start..].split(sep)` for a non-empty separator: the pieces between its
/// non-overlapping occurrences, left to right.
pub open spec fn split_sep_from(s: Seq<char>, sep: Seq<char>, start: int) -> Seq<Seq<char>>
    decreases s.len() - start,
{
    if start < 0 || start > s.len() || sep.len() == 0 {
        seq![s.subrange(if 0 <= start <= s.len() { start } else { 0 }, s.len() as int)]
    } else {
        let i = find_from(s, sep, start);
        if i == -1 {
            seq![s.subrange(start, s.len() as int)]
        } else {
            proof {
                lemma_find_from(s, sep, start);
            }
            seq![s.subrange(start, i)] + split_sep_from(s, sep, i + sep.len())
        }
    }
}

/// `s.split(sep)` for a non-empty separator.
pub open spec fn split_sep(s: Seq<char>, sep: Seq<char>) -> Seq<Seq<char>> {
    split_sep_from(s, sep, 0)
}

/// `s.split(sep)`, each piece copied out.
pub fn split_sep_on(s: &[char], sep: &str) -> (r: Vec<Vec<char>>)
    requires
        sep@.len() > 0,
    ensures
        views(r@) == split_sep(s@, sep@),
{
    let p = chars_of(sep);
    let mut r: Vec<Vec<char>> = Vec::new();
    let mut start: usize = 0;
    loop
        invariant
            start <= s.len(),
            p@ == sep@,
            p@.len() > 0,
            views(r@) + split_sep_from(s@, p@, start as int) == split_sep(s@, p@),
        decreases s.len() - start,
    {
        let ghost before = views(r@);
        match find_sub_from(s, &p, start) {
            None => {
                let piece = slice_vec(s, start, s.len());
                r.push(piece);
                assert(views(r@) =~= before.push(piece@));
                assert(split_sep_from(s@, p@, start as int) == seq![s@.subrange(start as int, s@.len() as int)]);
                assert(views(r@) =~= before + split_sep_from(s@, p@, start as int));
                return r;
            },
            Some(i) => {
                proof {
                    lemma_find_from(s@, p@, start as int);
                }
                let piece = slice_vec(s, start, i);
                r.push(piece);
                assert(views(r@) =~= before.push(piece@));
                let ghost rest = split_sep_from(s@, p@, i + p@.len());
                assert(split_sep_from(s@, p@, start as int) == seq![s@.subrange(start as int, i as int)] + rest);
                assert(before + (seq![piece@] + rest) =~= before.push(piece@) + rest);
                start = i + p.len();
            },
        }
    }
}

} // verus!
