//! Pre-commit check: scans what is staged for the usual accidents (secrets, conflict
//! markers, large files, debug leftovers, TODOs) so that the front end can warn before
//! a commit. Only added lines are scanned; large files and `.env` files are reported
//! as whole files.
use vstd::prelude::*;
use crate::text::{lower, trim, starts_with, contains, find_from, trim_start};
use crate::hunk::{FileDiff, LineKind};

verus! {

/// Files larger than this many bytes are reported as large.
pub const LARGE_FILE_BYTES: u64 = 1048576;

/// The class of a warning.
#[derive(Debug, Clone, Copy, PartialEq, Eq, Structural)]
pub enum WarningKind {
    /// A `.env` file, or an added line that looks like it assigns a secret.
    SensitiveInfo,
    /// A conflict marker left in.
    ConflictMarker,
    /// A staged file over 1 MB.
    LargeFile,
    /// `console.log`, `debugger`, `println!` and the like.
    DebugResidue,
    /// `TODO`, `FIXME` and the like.
    Todo,
}

/// One pre-commit warning.
#[derive(Debug, Clone)]
pub struct PrecommitWarning {
    pub kind: WarningKind,
    pub file: String,
    /// New-file line number for a line warning; `None` for a whole-file warning.
    pub line: Option<u32>,
    /// What was found (the keyword, the size), never the secret value itself.
    pub detail: String,
}

/// The result of the check.
#[derive(Debug, Clone)]
pub struct PrecommitReport {
    pub warnings: Vec<PrecommitWarning>,
}

// ───────────────────────── keyword lists ─────────────────────────

/// Words that, followed by `=` or `:` and a value, look like a secret.
pub open spec fn secret_key(i: int) -> Seq<char> {
    if i == 0 { "password"@ } else if i == 1 { "passwd"@ } else if i == 2 { "secret"@ } else if i == 3 { "token"@ }
    else if i == 4 { "api_key"@ } else if i == 5 { "apikey"@ } else if i == 6 { "access_key"@ } else if i == 7 { "private_key"@ }
    else if i == 8 { "client_secret"@ } else if i == 9 { "access_token"@ } else if i == 10 { "auth_token"@ } else { "aws_secret"@ }
}

/// Debug leftovers (lowercase substrings).
pub open spec fn debug_marker(i: int) -> Seq<char> {
    if i == 0 { "console.log"@ } else if i == 1 { "console.debug"@ } else if i == 2 { "console.warn"@ } else if i == 3 { "console.info"@ }
    else if i == 4 { "console.error"@ } else if i == 5 { "debugger"@ } else if i == 6 { "print!"@ } else if i == 7 { "eprintln!"@ }
    else if i == 8 { "println!"@ } else { "dbg!"@ }
}

/// To-do words (as whole words only).
pub open spec fn todo_marker(i: int) -> Seq<char> {
    if i == 0 { "todo"@ } else if i == 1 { "fixme"@ } else if i == 2 { "xxx"@ } else { "hack"@ }
}

fn secret_keys() -> (r: Vec<&'static str>)
    ensures
        r.len() == 12,
        forall|i: int| 0 <= i < r.len() ==> (#[trigger] r@[i])@ == secret_key(i),
{
    let mut r: Vec<&'static str> = Vec::new();
    r.push("password");
    r.push("passwd");
    r.push("secret");
    r.push("token");
    r.push("api_key");
    r.push("apikey");
    r.push("access_key");
    r.push("private_key");
    r.push("client_secret");
    r.push("access_token");
    r.push("auth_token");
    r.push("aws_secret");
    r
}

fn debug_markers() -> (r: Vec<&'static str>)
    ensures
        r.len() == 10,
        forall|i: int| 0 <= i < r.len() ==> (#[trigger] r@[i])@ == debug_marker(i),
{
    let mut r: Vec<&'static str> = Vec::new();
    r.push("console.log");
    r.push("console.debug");
    r.push("console.warn");
    r.push("console.info");
    r.push("console.error");
    r.push("debugger");
    r.push("print!");
    r.push("eprintln!");
    r.push("println!");
    r.push("dbg!");
    r
}

fn todo_markers() -> (r: Vec<&'static str>)
    ensures
        r.len() == 4,
        forall|i: int| 0 <= i < r.len() ==> (#[trigger] r@[i])@ == todo_marker(i),
{
    let mut r: Vec<&'static str> = Vec::new();
    r.push("todo");
    r.push("fixme");
    r.push("xxx");
    r.push("hack");
    r
}

// ───────────────────────── words and secrets (spec) ─────────────────────────

/// A word character: ASCII letter or digit, `_` or `-`.
pub open spec fn is_word_char(c: char) -> bool {
    ('a' <= c && c <= 'z') || ('A' <= c && c <= 'Z') || ('0' <= c && c <= '9') || c == '_' || c == '-'
}

pub open spec fn is_quote(c: char) -> bool {
    c == '"' || c == '\'' || c == '`'
}

pub open spec fn trim_quotes_start(s: Seq<char>) -> Seq<char>
    decreases s.len(),
{
    if s.len() > 0 && is_quote(s[0]) {
        trim_quotes_start(s.drop_first())
    } else {
        s
    }
}

pub open spec fn trim_quotes_end(s: Seq<char>) -> Seq<char>
    decreases s.len(),
{
    if s.len() > 0 && is_quote(s.last()) {
        trim_quotes_end(s.drop_last())
    } else {
        s
    }
}

/// Does the occurrence of a key at `at` (length `kl`) in `low` look like a secret: a word
/// boundary before it, then (after spaces) `=` or `:`, then a value that is not empty
/// once trimmed of spaces and quotes?
pub open spec fn secret_at(low: Seq<char>, at: int, kl: int) -> bool {
    let prev_ok = at == 0 || !is_word_char(low[at - 1]);
    let after = trim_start(low.skip(at + kl));
    let has_assign = after.len() > 0 && (after[0] == '=' || after[0] == ':');
    let val = if after.len() >= 1 { trim_quotes_end(trim_quotes_start(trim(after.skip(1)))) } else { Seq::empty() };
    prev_ok && has_assign && val.len() > 0
}

/// Scans the occurrences of `key` in `low` from `from` on, each search resuming after the
/// previous occurrence.
pub open spec fn secret_scan(low: Seq<char>, key: Seq<char>, from: int) -> bool
    decreases low.len() - from,
{
    let j = find_from(low, key, from);
    if j < 0 || key.len() == 0 || from < 0 || from > low.len() {
        false
    } else if secret_at(low, j, key.len() as int) {
        true
    } else {
        proof {
            crate::text::lemma_find_from(low, key, from);
        }
        secret_scan(low, key, j + key.len())
    }
}

/// Does `content` (lowercased) assign something to `key`?
pub open spec fn has_secret_spec(content: Seq<char>, key: Seq<char>) -> bool {
    secret_scan(lower(content), key, 0)
}

pub open spec fn word_at(low: Seq<char>, at: int, nl: int) -> bool {
    (at == 0 || !is_word_char(low[at - 1])) && (at + nl >= low.len() || !is_word_char(low[at + nl]))
}

pub open spec fn word_scan(low: Seq<char>, needle: Seq<char>, from: int) -> bool
    decreases low.len() - from,
{
    let j = find_from(low, needle, from);
    if j < 0 || needle.len() == 0 || from < 0 || from > low.len() {
        false
    } else if word_at(low, j, needle.len() as int) {
        true
    } else {
        proof {
            crate::text::lemma_find_from(low, needle, from);
        }
        word_scan(low, needle, j + 1)
    }
}

/// Does `needle` occur in `content` (lowercased) as a whole word?
pub open spec fn contains_word_spec(content: Seq<char>, needle: Seq<char>) -> bool {
    word_scan(lower(content), needle, 0)
}

// ───────────────────────── words and secrets (exec) ─────────────────────────

fn is_word_char_exec(c: char) -> (r: bool)
    ensures
        r == is_word_char(c),
{
    ('a' <= c && c <= 'z') || ('A' <= c && c <= 'Z') || ('0' <= c && c <= '9') || c == '_' || c == '-'
}

fn trim_quotes(s: &[char]) -> (r: Vec<char>)
    ensures
        r@ == trim_quotes_end(trim_quotes_start(s@)),
{
    let mut a: usize = 0;
    assert(s@.skip(0) =~= s@);
    while a < s.len() && (s[a] == '"' || s[a] == '\'' || s[a] == '`')
        invariant
            a <= s.len(),
            trim_quotes_start(s@) == trim_quotes_start(s@.skip(a as int)),
        decreases s.len() - a,
    {
        assert(s@.skip(a as int).drop_first() =~= s@.skip(a + 1));
        a = a + 1;
    }
    assert(trim_quotes_start(s@.skip(a as int)) == s@.skip(a as int));
    let mut b: usize = s.len();
    assert(s@.subrange(a as int, s.len() as int) =~= s@.skip(a as int));
    while b > a && (s[b - 1] == '"' || s[b - 1] == '\'' || s[b - 1] == '`')
        invariant
            a <= b <= s.len(),
            trim_quotes_end(s@.skip(a as int)) == trim_quotes_end(s@.subrange(a as int, b as int)),
        decreases b,
    {
        assert(s@.subrange(a as int, b as int).drop_last() =~= s@.subrange(a as int, b - 1));
        b = b - 1;
    }
    assert(trim_quotes_end(s@.subrange(a as int, b as int)) == s@.subrange(a as int, b as int));
    crate::text::slice_vec(s, a, b)
}

fn secret_at_exec(low: &Vec<char>, at: usize, kl: usize) -> (r: bool)
    requires
        at + kl <= low.len(),
    ensures
        r == secret_at(low@, at as int, kl as int),
{
    let prev_ok = at == 0 || !is_word_char_exec(low[at - 1]);
    let rest = crate::text::slice_vec(low, at + kl, low.len());
    assert(rest@ =~= low@.skip(at + kl));
    let after = crate::text::trim_start_vec(&rest);
    let has_assign = after.len() > 0 && (after[0] == '=' || after[0] == ':');
    let val_len = if after.len() >= 1 {
        let tail = crate::text::slice_vec(&after, 1, after.len());
        assert(tail@ =~= after@.skip(1));
        let v = trim_quotes(&crate::text::trim_vec(&tail));
        v.len()
    } else {
        0
    };
    prev_ok && has_assign && val_len > 0
}

/// Does `content` (lowercased) hold `key` after a word boundary, followed (after spaces)
/// by `=` or `:` and a value that is not empty once trimmed of spaces and quotes?
pub fn has_secret(content: &str, key: &str) -> (r: bool)
    requires
        key@.len() > 0,
    ensures
        r == has_secret_spec(content@, key@),
{
    let low = crate::text::lower_vec(&crate::text::chars_of(content));
    let k = crate::text::chars_of(key);
    let mut from: usize = 0;
    loop
        invariant
            from <= low.len(),
            k@ == key@,
            k@.len() > 0,
            has_secret_spec(content@, key@) == secret_scan(low@, k@, from as int),
            low@ == lower(content@),
        decreases low.len() - from,
    {
        match crate::text::find_sub_from(&low, &k, from) {
            None => {
                return false;
            },
            Some(abs) => {
                proof {
                    crate::text::lemma_find_from(low@, k@, from as int);
                }
                if secret_at_exec(&low, abs, k.len()) {
                    return true;
                }
                from = abs + k.len();
            },
        }
    }
}

/// Does `needle` occur in `content` (lowercased) with no word character on either side?
pub fn contains_word(content: &str, needle: &str) -> (r: bool)
    requires
        needle@.len() > 0,
    ensures
        r == contains_word_spec(content@, needle@),
{
    let low = crate::text::lower_vec(&crate::text::chars_of(content));
    let n = crate::text::chars_of(needle);
    let mut from: usize = 0;
    loop
        invariant
            from <= low.len(),
            n@ == needle@,
            n@.len() > 0,
            contains_word_spec(content@, needle@) == word_scan(low@, n@, from as int),
            low@ == lower(content@),
        decreases low.len() - from,
    {
        match crate::text::find_sub_from(&low, &n, from) {
            None => {
                return false;
            },
            Some(abs) => {
                proof {
                    crate::text::lemma_find_from(low@, n@, from as int);
                }
                let next = abs + n.len();
                let prev_ok = abs == 0 || !is_word_char_exec(low[abs - 1]);
                let next_ok = next >= low.len() || !is_word_char_exec(low[next]);
                if prev_ok && next_ok {
                    return true;
                }
                from = abs + 1;
            },
        }
    }
}

// ───────────────────────── .env files ─────────────────────────

/// The non-empty path components other than `.`, in order.
pub open spec fn components_upto(parts: Seq<Seq<char>>, n: int) -> Seq<Seq<char>>
    decreases n,
{
    if n <= 0 {
        Seq::empty()
    } else {
        components_upto(parts, n - 1) + if parts[n - 1].len() > 0 && parts[n - 1] != seq!['.'] {
            seq![parts[n - 1]]
        } else {
            Seq::empty()
        }
    }
}

/// `Path::file_name` for `/`-separated paths: the last component, unless there is none or
/// it is `..`.
pub open spec fn file_name_spec(p: Seq<char>) -> Option<Seq<char>> {
    let parts = crate::text::split_char(p, '/');
    let cs = components_upto(parts, parts.len() as int);
    if cs.len() == 0 || cs.last() == seq!['.', '.'] {
        None
    } else {
        Some(cs.last())
    }
}

/// A `.env` family file (`.env`, `.env.local`, `.env.production`, ...).
pub open spec fn is_env_file_spec(path: Seq<char>) -> bool {
    let name = match file_name_spec(path) {
        Some(n) => n,
        None => Seq::empty(),
    };
    name == ".env"@ || starts_with(name, ".env."@)
}

/// Is `path` a `.env` family file (`.env`, `.env.local`, ...)?
pub fn is_env_file(path: &str) -> (r: bool)
    ensures
        r == is_env_file_spec(path@),
{
    let parts = crate::text::split_on(&crate::text::chars_of(path), '/');
    let ghost pv = crate::text::views(parts@);
    let mut last: Option<usize> = None;
    let mut i: usize = 0;
    while i < parts.len()
        invariant
            i <= parts.len(),
            pv == crate::text::views(parts@),
            match last {
                Some(k) => k < i && components_upto(pv, i as int).len() > 0 && components_upto(pv, i as int).last() == pv[k as int],
                None => components_upto(pv, i as int).len() == 0,
            },
        decreases parts.len() - i,
    {
        let p = &parts[i];
        assert(pv[i as int] == p@);
        let dot = p.len() == 1 && p[0] == '.';
        assert(dot == (p@ == seq!['.'])) by {
            if p@.len() == 1 && p@[0] == '.' {
                assert(p@ =~= seq!['.']);
            }
        }
        if p.len() > 0 && !dot {
            last = Some(i);
        }
        i = i + 1;
    }
    let name: Vec<char> = match last {
        Some(k) => {
            let c = &parts[k];
            let dotdot = c.len() == 2 && c[0] == '.' && c[1] == '.';
            assert(dotdot == (c@ == seq!['.', '.'])) by {
                if c@.len() == 2 && c@[0] == '.' && c@[1] == '.' {
                    assert(c@ =~= seq!['.', '.']);
                }
            }
            if dotdot { Vec::new() } else { crate::text::slice_vec(c, 0, c.len()) }
        },
        None => Vec::new(),
    };
    proof {
        assert(pv.len() == parts@.len());
        match last {
            Some(k) => {
                assert(parts@[k as int]@.subrange(0, parts@[k as int]@.len() as int) =~= parts@[k as int]@);
            },
            None => {},
        }
        assert(name@ == match file_name_spec(path@) { Some(n) => n, None => Seq::<char>::empty() });
    }
    crate::text::eq_str(&name, ".env") || crate::text::starts_with_str(&name, ".env.")
}

// ───────────────────────── line classification ─────────────────────────

/// The hits of one added line, in order: a conflict marker, then each secret key, each
/// debug marker and each to-do word found.
pub open spec fn classify_spec(content: Seq<char>) -> Seq<(WarningKind, Seq<char>)> {
    let t = trim(content);
    let conflict = starts_with(t, "<<<<<<< "@) || t == "======="@ || starts_with(t, ">>>>>>> "@);
    (if conflict { seq![(WarningKind::ConflictMarker, "冲突标记残留"@)] } else { Seq::empty() })
        + secret_hits(content, 12) + debug_hits(content, 10) + todo_hits(content, 4)
}

pub open spec fn secret_hits(content: Seq<char>, n: int) -> Seq<(WarningKind, Seq<char>)>
    decreases n,
{
    if n <= 0 {
        Seq::empty()
    } else {
        secret_hits(content, n - 1) + if has_secret_spec(content, secret_key(n - 1)) {
            seq![(WarningKind::SensitiveInfo, "疑似密钥:"@ + secret_key(n - 1))]
        } else {
            Seq::empty()
        }
    }
}

pub open spec fn debug_hits(content: Seq<char>, n: int) -> Seq<(WarningKind, Seq<char>)>
    decreases n,
{
    if n <= 0 {
        Seq::empty()
    } else {
        debug_hits(content, n - 1) + if contains(lower(content), debug_marker(n - 1)) {
            seq![(WarningKind::DebugResidue, "含 "@ + debug_marker(n - 1))]
        } else {
            Seq::empty()
        }
    }
}

pub open spec fn todo_hits(content: Seq<char>, n: int) -> Seq<(WarningKind, Seq<char>)>
    decreases n,
{
    if n <= 0 {
        Seq::empty()
    } else {
        todo_hits(content, n - 1) + if contains_word_spec(content, todo_marker(n - 1)) {
            seq![(WarningKind::Todo, "含 "@ + todo_marker(n - 1))]
        } else {
            Seq::empty()
        }
    }
}

pub open spec fn hits_view(v: Seq<(WarningKind, String)>) -> Seq<(WarningKind, Seq<char>)> {
    v.map_values(|h: (WarningKind, String)| (h.0, h.1@))
}

fn push_hit(hits: &mut Vec<(WarningKind, String)>, kind: WarningKind, prefix: &str, word: &str)
    ensures
        hits_view(final(hits)@) == hits_view(old(hits)@).push((kind, prefix@ + word@)),
{
    let mut d = crate::text::chars_of(prefix);
    crate::text::push_str(&mut d, word);
    hits.push((kind, crate::text::string_of(&d)));
    assert(hits_view(hits@) =~= hits_view(old(hits)@).push((kind, prefix@ + word@)));
}

/// The warnings of one added line: conflict markers, secrets, debug leftovers, to-dos.
/// The detail names the keyword, never the value.
pub fn classify_added_line(content: &str) -> (r: Vec<(WarningKind, String)>)
    ensures
        hits_view(r@) == classify_spec(content@),
{
    let cs = crate::text::chars_of(content);
    let low = crate::text::lower_vec(&cs);
    let t = crate::text::trim_vec(&cs);
    let mut hits: Vec<(WarningKind, String)> = Vec::new();
    if crate::text::starts_with_str(&t, "<<<<<<< ") || crate::text::eq_str(&t, "=======") || crate::text::starts_with_str(&t, ">>>>>>> ") {
        push_hit(&mut hits, WarningKind::ConflictMarker, "冲突标记残留", "");
        assert("冲突标记残留"@ + ""@ =~= "冲突标记残留"@) by {
            reveal_strlit("");
        }
    }
    let ghost h0 = hits_view(hits@);
    let keys = secret_keys();
    let mut i: usize = 0;
    assert(h0 + secret_hits(content@, 0) =~= h0);
    while i < keys.len()
        invariant
            i <= keys.len(),
            keys.len() == 12,
            forall|j: int| 0 <= j < keys.len() ==> (#[trigger] keys@[j])@ == secret_key(j),
            hits_view(hits@) == h0 + secret_hits(content@, i as int),
        decreases keys.len() - i,
    {
        assert(keys@[i as int]@ == secret_key(i as int));
        proof {
            reveal_strlit("password");
            reveal_strlit("passwd");
            reveal_strlit("secret");
            reveal_strlit("token");
            reveal_strlit("api_key");
            reveal_strlit("apikey");
            reveal_strlit("access_key");
            reveal_strlit("private_key");
            reveal_strlit("client_secret");
            reveal_strlit("access_token");
            reveal_strlit("auth_token");
            reveal_strlit("aws_secret");
        }
        if has_secret(content, keys[i]) {
            push_hit(&mut hits, WarningKind::SensitiveInfo, "疑似密钥:", keys[i]);
        }
        i = i + 1;
    }
    let ghost h1 = hits_view(hits@);
    let markers = debug_markers();
    let mut i: usize = 0;
    assert(h1 + debug_hits(content@, 0) =~= h1);
    while i < markers.len()
        invariant
            i <= markers.len(),
            markers.len() == 10,
            forall|j: int| 0 <= j < markers.len() ==> (#[trigger] markers@[j])@ == debug_marker(j),
            hits_view(hits@) == h1 + debug_hits(content@, i as int),
            low@ == lower(content@),
        decreases markers.len() - i,
    {
        assert(markers@[i as int]@ == debug_marker(i as int));
        if crate::text::contains_str(&low, markers[i]) {
            push_hit(&mut hits, WarningKind::DebugResidue, "含 ", markers[i]);
        }
        i = i + 1;
    }
    let ghost h2 = hits_view(hits@);
    let words = todo_markers();
    let mut i: usize = 0;
    assert(h2 + todo_hits(content@, 0) =~= h2);
    while i < words.len()
        invariant
            i <= words.len(),
            words.len() == 4,
            forall|j: int| 0 <= j < words.len() ==> (#[trigger] words@[j])@ == todo_marker(j),
            hits_view(hits@) == h2 + todo_hits(content@, i as int),
        decreases words.len() - i,
    {
        assert(words@[i as int]@ == todo_marker(i as int));
        proof {
            reveal_strlit("todo");
            reveal_strlit("fixme");
            reveal_strlit("xxx");
            reveal_strlit("hack");
        }
        if contains_word(content, words[i]) {
            push_hit(&mut hits, WarningKind::Todo, "含 ", words[i]);
        }
        i = i + 1;
    }
    assert(hits_view(hits@) =~= classify_spec(content@));
    hits
}

// ───────────────────────── the scan ─────────────────────────

pub struct WarnV {
    pub kind: WarningKind,
    pub file: Seq<char>,
    pub line: Option<u32>,
    pub detail: Seq<char>,
}

pub open spec fn warns_view(v: Seq<PrecommitWarning>) -> Seq<WarnV> {
    v.map_values(|w: PrecommitWarning| WarnV { kind: w.kind, file: w.file@, line: w.line, detail: w.detail@ })
}

/// The line warnings of a hunk's first `n` lines, and the new-file line number reached;
/// added and context lines advance the number (saturating), removed lines do not.
pub open spec fn hunk_warnings(file: Seq<char>, lines: Seq<(LineKind, Seq<char>)>, start: u32, n: int) -> (Seq<WarnV>, u32)
    decreases n,
{
    if n <= 0 {
        (Seq::empty(), start)
    } else {
        let (ws, at) = hunk_warnings(file, lines, start, n - 1);
        let next = if at == u32::MAX { at } else { (at + 1) as u32 };
        match lines[n - 1].0 {
            LineKind::Added => (ws + classify_spec(lines[n - 1].1).map_values(|h: (WarningKind, Seq<char>)| WarnV { kind: h.0, file, line: Some(at), detail: h.1 }), next),
            LineKind::Context => (ws, next),
            LineKind::Removed => (ws, at),
        }
    }
}

pub open spec fn hunks_warnings(file: Seq<char>, hs: Seq<crate::hunk::HunkV>, n: int) -> Seq<WarnV>
    decreases n,
{
    if n <= 0 {
        Seq::empty()
    } else {
        hunks_warnings(file, hs, n - 1) + hunk_warnings(file, hs[n - 1].lines, hs[n - 1].new_start, hs[n - 1].lines.len() as int).0
    }
}

/// A file's warnings: a `.env` file, a file over `LARGE_FILE_BYTES` (when its size is
/// known), then the warnings of its added lines.
pub open spec fn file_warnings(f: crate::hunk::FileV, size: Option<u64>) -> Seq<WarnV> {
    (if is_env_file_spec(f.path) {
        seq![WarnV { kind: WarningKind::SensitiveInfo, file: f.path, line: None, detail: "环境变量文件,通常含密钥不应入库"@ }]
    } else {
        Seq::empty()
    }) + (match size {
        Some(n) => if n > LARGE_FILE_BYTES {
            seq![WarnV { kind: WarningKind::LargeFile, file: f.path, line: None, detail: crate::text::decimal((n / 1024) as nat) + " KB(>1MB)"@ }]
        } else {
            Seq::empty()
        },
        None => Seq::empty(),
    }) + hunks_warnings(f.path, f.hunks, f.hunks.len() as int)
}

pub open spec fn report_spec(files: Seq<crate::hunk::FileV>, sizes: Seq<Option<u64>>, n: int) -> Seq<WarnV>
    decreases n,
{
    if n <= 0 {
        Seq::empty()
    } else {
        report_spec(files, sizes, n - 1) + file_warnings(files[n - 1], sizes[n - 1])
    }
}

fn push_warning(ws: &mut Vec<PrecommitWarning>, kind: WarningKind, file: &String, line: Option<u32>, detail: &Vec<char>)
    ensures
        warns_view(final(ws)@) == warns_view(old(ws)@).push(WarnV { kind, file: file@, line, detail: detail@ }),
{
    ws.push(PrecommitWarning { kind, file: file.clone(), line, detail: crate::text::string_of(detail) });
    assert(warns_view(ws@) =~= warns_view(old(ws)@).push(WarnV { kind, file: file@, line, detail: detail@ }));
}

/// The warnings of the staged files, `sizes[i]` being the working-tree size of
/// `files[i]` where it exists.
pub fn precommit_warnings(files: &[FileDiff], sizes: &[Option<u64>]) -> (r: PrecommitReport)
    requires
        sizes.len() == files.len(),
    ensures
        warns_view(r.warnings@) == report_spec(crate::hunk::files_view(files@), sizes@, files.len() as int),
{
    let ghost fv = crate::hunk::files_view(files@);
    let mut ws: Vec<PrecommitWarning> = Vec::new();
    let mut i: usize = 0;
    assert(warns_view(ws@) =~= report_spec(fv, sizes@, 0));
    while i < files.len()
        invariant
            i <= files.len(),
            sizes.len() == files.len(),
            fv == crate::hunk::files_view(files@),
            warns_view(ws@) == report_spec(fv, sizes@, i as int),
        decreases files.len() - i,
    {
        let f = &files[i];
        assert(fv[i as int] == f.view());
        let ghost w0 = warns_view(ws@);
        if is_env_file(f.path.as_str()) {
            let d = crate::text::chars_of("环境变量文件,通常含密钥不应入库");
            push_warning(&mut ws, WarningKind::SensitiveInfo, &f.path, None, &d);
        }
        match sizes[i] {
            Some(n) => {
                if n > LARGE_FILE_BYTES {
                    let mut d: Vec<char> = Vec::new();
                    crate::text::push_decimal(&mut d, n / 1024);
                    crate::text::push_str(&mut d, " KB(>1MB)");
                    push_warning(&mut ws, WarningKind::LargeFile, &f.path, None, &d);
                }
            },
            None => {},
        }
        let ghost w1 = warns_view(ws@);
        let mut k: usize = 0;
        assert(w1 + hunks_warnings(f.path@, f.view().hunks, 0) =~= w1);
        while k < f.hunks.len()
            invariant
                k <= f.hunks.len(),
                f == &files@[i as int],
                warns_view(ws@) == w1 + hunks_warnings(f.path@, f.view().hunks, k as int),
            decreases f.hunks.len() - k,
        {
            let h = &f.hunks[k];
            assert(f.view().hunks[k as int] == h.view());
            let ghost lv = h.view().lines;
            let ghost w2 = warns_view(ws@);
            let mut new_line: u32 = h.new_start;
            let mut j: usize = 0;
            assert(w2 + hunk_warnings(f.path@, lv, h.new_start, 0).0 =~= w2);
            while j < h.lines.len()
                invariant
                    j <= h.lines.len(),
                    lv == crate::hunk::dlines_view(h.lines@),
                    warns_view(ws@) == w2 + hunk_warnings(f.path@, lv, h.new_start, j as int).0,
                    new_line == hunk_warnings(f.path@, lv, h.new_start, j as int).1,
                decreases h.lines.len() - j,
            {
                let line = &h.lines[j];
                assert(lv[j as int] == (line.kind, line.content@));
                match line.kind {
                    LineKind::Added => {
                        let hits = classify_added_line(line.content.as_str());
                        let ghost w3 = warns_view(ws@);
                        let ghost hv = hits_view(hits@);
                        let mut m: usize = 0;
                        while m < hits.len()
                            invariant
                                m <= hits.len(),
                                hv == hits_view(hits@),
                                warns_view(ws@) == w3 + hv.take(m as int).map_values(|x: (WarningKind, Seq<char>)| WarnV { kind: x.0, file: f.path@, line: Some(new_line), detail: x.1 }),
                            decreases hits.len() - m,
                        {
                            let d = crate::text::chars_of(hits[m].1.as_str());
                            push_warning(&mut ws, hits[m].0, &f.path, Some(new_line), &d);
                            assert(hv.take(m + 1) =~= hv.take(m as int).push(hv[m as int]));
                            assert(hv.take(m + 1).map_values(|x: (WarningKind, Seq<char>)| WarnV { kind: x.0, file: f.path@, line: Some(new_line), detail: x.1 }) =~= hv.take(m as int).map_values(|x: (WarningKind, Seq<char>)| WarnV { kind: x.0, file: f.path@, line: Some(new_line), detail: x.1 }).push(WarnV { kind: hits@[m as int].0, file: f.path@, line: Some(new_line), detail: hits@[m as int].1@ }));
                            m = m + 1;
                        }
                        assert(hv.take(hits.len() as int) =~= hv);
                        new_line = new_line.saturating_add(1);
                    },
                    LineKind::Context => {
                        new_line = new_line.saturating_add(1);
                    },
                    LineKind::Removed => {},
                }
                j = j + 1;
            }
            assert(lv.len() == h.lines.len());
            k = k + 1;
        }
        assert(f.view().hunks.len() == f.hunks.len());
        i = i + 1;
    }
    PrecommitReport { warnings: ws }
}

} // verus!
