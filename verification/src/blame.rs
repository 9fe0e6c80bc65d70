//! Line-by-line blame, read from `git blame --porcelain`.
//!
//! The first line of each commit's group carries the full header (author, author-time, ...);
//! later lines of the same commit carry only the commit line, so the author and time are
//! kept per commit and looked up for those.
use vstd::prelude::*;
use crate::text::{lines, split_char, starts_with, trim_end_char, parse_unsigned, parse_i64, views};
use crate::repo::{Repo, Reply, Step, Flow, Outcome, ReplyV, step_view, map_done, run_git, replies_view, strs, s};

verus! {

/// One line of a blame: which commit brought it, and who wrote it when.
#[derive(Debug, Clone)]
pub struct BlameLine {
    /// The short SHA (8 characters).
    pub sha: String,
    pub full_sha: String,
    pub author: String,
    /// Author time (a unix timestamp).
    pub time: i64,
    /// Line number, from 1.
    pub line_no: usize,
    pub content: String,
}

pub struct BlameV {
    pub sha: Seq<char>,
    pub full_sha: Seq<char>,
    pub author: Seq<char>,
    pub time: i64,
    pub line_no: usize,
    pub content: Seq<char>,
}

pub open spec fn blame_view(v: Seq<BlameLine>) -> Seq<BlameV> {
    v.map_values(|b: BlameLine| BlameV { sha: b.sha@, full_sha: b.full_sha@, author: b.author@, time: b.time, line_no: b.line_no, content: b.content@ })
}

/// The author and time known per commit, as a list in which a commit appears once.
pub type MetaV = Seq<(Seq<char>, (Seq<char>, i64))>;

/// The position of `key` in `m[i..]`, or `m.len()`.
pub open spec fn meta_find(m: MetaV, key: Seq<char>, i: int) -> int
    decreases m.len() - i,
{
    if i < 0 || i >= m.len() {
        m.len() as int
    } else if m[i].0 == key {
        i
    } else {
        meta_find(m, key, i + 1)
    }
}

/// Records the author and time of a commit (replacing what was known of it).
pub open spec fn meta_insert(m: MetaV, key: Seq<char>, val: (Seq<char>, i64)) -> MetaV {
    let i = meta_find(m, key, 0);
    if i < m.len() {
        m.update(i, (key, val))
    } else {
        m.push((key, val))
    }
}

/// The author and time of a commit; empty and 0 when unknown.
pub open spec fn meta_get(m: MetaV, key: Seq<char>) -> (Seq<char>, i64) {
    let i = meta_find(m, key, 0);
    if i < m.len() {
        m[i].1
    } else {
        (Seq::empty(), 0)
    }
}

/// The parser's state.
pub struct BlameState {
    pub meta: MetaV,
    pub result: Seq<BlameV>,
    pub cur_sha: Seq<char>,
    pub cur_line: usize,
    pub pend_author: Option<Seq<char>>,
    pub pend_time: Option<i64>,
}

pub open spec fn is_hex(c: char) -> bool {
    ('0' <= c && c <= '9') || ('a' <= c && c <= 'f') || ('A' <= c && c <= 'F')
}

/// A commit line `<40 hex> <orig> <final> [<count>]`.
pub open spec fn is_commit_line(parts: Seq<Seq<char>>) -> bool {
    parts.len() >= 3 && parts[0].len() == 40 && forall|j: int| 0 <= j < 40 ==> is_hex(#[trigger] parts[0][j])
}

/// `s.parse::<usize>().unwrap_or(0)`.
pub open spec fn usize_or_zero(s: Seq<char>) -> usize {
    match parse_unsigned(s, usize::MAX as nat) {
        Some(v) => v as usize,
        None => 0,
    }
}

pub open spec fn short_sha(sha: Seq<char>) -> Seq<char> {
    if sha.len() >= 8 { sha.take(8) } else { sha }
}

/// One line of porcelain output.
pub open spec fn blame_step(st: BlameState, raw: Seq<char>) -> BlameState {
    let line = trim_end_char(raw, '\r');
    if starts_with(line, "\t"@) {
        let meta = match (st.pend_author, st.pend_time) {
            (Some(a), Some(t)) => meta_insert(st.meta, st.cur_sha, (a, t)),
            _ => st.meta,
        };
        let (author, time) = meta_get(meta, st.cur_sha);
        BlameState {
            meta,
            result: st.result.push(BlameV {
                sha: short_sha(st.cur_sha),
                full_sha: st.cur_sha,
                author,
                time,
                line_no: st.cur_line,
                content: line.skip(1),
            }),
            pend_author: None,
            pend_time: None,
            ..st
        }
    } else if starts_with(line, "author "@) {
        BlameState { pend_author: Some(line.skip(7)), ..st }
    } else if starts_with(line, "author-time "@) {
        BlameState {
            pend_time: match parse_i64(line.skip(12)) {
                Some(t) => Some(t as i64),
                None => None,
            },
            ..st
        }
    } else {
        let parts = split_char(line, ' ');
        if is_commit_line(parts) {
            BlameState { cur_sha: parts[0], cur_line: usize_or_zero(parts[2]), ..st }
        } else {
            st
        }
    }
}

pub open spec fn blame_start() -> BlameState {
    BlameState { meta: Seq::empty(), result: Seq::empty(), cur_sha: Seq::empty(), cur_line: 0, pend_author: None, pend_time: None }
}

pub open spec fn blame_scan(ls: Seq<Seq<char>>, n: int) -> BlameState
    decreases n,
{
    if n <= 0 {
        blame_start()
    } else {
        blame_step(blame_scan(ls, n - 1), ls[n - 1])
    }
}

pub open spec fn parse_blame_spec(out: Seq<char>) -> Seq<BlameV> {
    let ls = lines(out);
    blame_scan(ls, ls.len() as int).result
}

pub open spec fn meta_view(v: Seq<(String, (String, i64))>) -> MetaV {
    v.map_values(|e: (String, (String, i64))| (e.0@, (e.1.0@, e.1.1)))
}

fn meta_find_exec(m: &Vec<(String, (String, i64))>, key: &str) -> (r: usize)
    ensures
        r as int == meta_find(meta_view(m@), key@, 0),
{
    let ghost mv = meta_view(m@);
    let k = crate::text::chars_of(key);
    let mut i: usize = 0;
    while i < m.len()
        invariant
            i <= m.len(),
            mv == meta_view(m@),
            k@ == key@,
            meta_find(mv, key@, 0) == meta_find(mv, key@, i as int),
        decreases m.len() - i,
    {
        assert(mv[i as int].0 == m@[i as int].0@);
        let c = crate::text::chars_of(m[i].0.as_str());
        if crate::text::eq_str(&c, key) {
            return i;
        }
        i = i + 1;
    }
    i
}

fn is_hex_exec(c: char) -> (r: bool)
    ensures
        r == is_hex(c),
{
    ('0' <= c && c <= '9') || ('a' <= c && c <= 'f') || ('A' <= c && c <= 'F')
}

fn is_commit_line_exec(parts: &Vec<Vec<char>>) -> (r: bool)
    ensures
        r == is_commit_line(views(parts@)),
{
    if parts.len() < 3 || parts[0].len() != 40 {
        assert(parts.len() >= 3 ==> views(parts@)[0] == parts@[0]@);
        return false;
    }
    assert(views(parts@)[0] == parts@[0]@);
    let p = &parts[0];
    let mut j: usize = 0;
    while j < 40
        invariant
            j <= 40,
            p@.len() == 40,
            p@ == views(parts@)[0],
            parts.len() >= 3,
            forall|m: int| 0 <= m < j ==> is_hex(#[trigger] p@[m]),
        decreases 40 - j,
    {
        if !is_hex_exec(p[j]) {
            assert(views(parts@)[0][j as int] == p@[j as int]);
            return false;
        }
        j = j + 1;
    }
    true
}

/// Parses `git blame --porcelain` output.
pub fn parse_blame(out: &str) -> (r: Vec<BlameLine>)
    ensures
        blame_view(r@) == parse_blame_spec(out@),
{
    let ls = crate::text::lines_of(&crate::text::chars_of(out));
    let ghost lv = views(ls@);
    let mut meta: Vec<(String, (String, i64))> = Vec::new();
    let mut result: Vec<BlameLine> = Vec::new();
    let mut cur_sha = String::new();
    let mut cur_line: usize = 0;
    let mut pend_author: Option<String> = None;
    let mut pend_time: Option<i64> = None;
    let mut i: usize = 0;
    assert(meta_view(meta@) =~= Seq::<(Seq<char>, (Seq<char>, i64))>::empty());
    assert(blame_view(result@) =~= Seq::<BlameV>::empty());
    while i < ls.len()
        invariant
            i <= ls.len(),
            lv == views(ls@),
            lv == lines(out@),
            (BlameState {
                meta: meta_view(meta@),
                result: blame_view(result@),
                cur_sha: cur_sha@,
                cur_line,
                pend_author: crate::conflict::opt_view(pend_author),
                pend_time,
            }) == blame_scan(lv, i as int),
        decreases ls.len() - i,
    {
        proof {
            reveal_strlit("\t");
            reveal_strlit("author ");
            reveal_strlit("author-time ");
        }
        assert(lv[i as int] == ls@[i as int]@);
        let line = crate::text::trim_end_char_vec(&ls[i], '\r');
        if line.len() > 0 && line[0] == '\t' {
            assert(starts_with(line@, "\t"@)) by {
                assert(line@.take(1) =~= "\t"@);
            }
            let ghost m0 = meta_view(meta@);
            match (&pend_author, &pend_time) {
                (Some(a), Some(t)) => {
                    let idx = meta_find_exec(&meta, cur_sha.as_str());
                    let entry = (cur_sha.clone(), (a.clone(), *t));
                    if idx < meta.len() {
                        meta.set(idx, entry);
                        assert(meta_view(meta@) =~= m0.update(idx as int, (cur_sha@, (a@, *t))));
                    } else {
                        meta.push(entry);
                        assert(meta_view(meta@) =~= m0.push((cur_sha@, (a@, *t))));
                    }
                },
                _ => {},
            }
            pend_author = None;
            pend_time = None;
            let idx = meta_find_exec(&meta, cur_sha.as_str());
            let (author, time) = if idx < meta.len() {
                assert(meta_view(meta@)[idx as int] == (meta@[idx as int].0@, (meta@[idx as int].1.0@, meta@[idx as int].1.1)));
                (meta[idx].1.0.clone(), meta[idx].1.1)
            } else {
                (String::new(), 0i64)
            };
            let sc = crate::text::chars_of(cur_sha.as_str());
            let short = if sc.len() >= 8 { crate::text::string_range(&sc, 0, 8) } else { cur_sha.clone() };
            assert(sc@.len() >= 8 ==> sc@.subrange(0, 8) =~= sc@.take(8));
            let content = crate::text::string_range(&line, 1, line.len());
            assert(content@ =~= line@.skip(1));
            let b = BlameLine { sha: short, full_sha: cur_sha.clone(), author, time, line_no: cur_line, content };
            let ghost before = blame_view(result@);
            result.push(b);
            assert(blame_view(result@) =~= before.push(BlameV { sha: b.sha@, full_sha: b.full_sha@, author: b.author@, time: b.time, line_no: b.line_no, content: b.content@ }));
        } else {
            assert(!starts_with(line@, "\t"@)) by {
                if line@.len() > 0 {
                    assert(line@.take(1)[0] == line@[0]);
                }
            }
            match crate::text::strip_prefix_str(&line, "author ") {
                Some(rest) => {
                    pend_author = Some(crate::text::string_of(&rest));
                },
                None => match crate::text::strip_prefix_str(&line, "author-time ") {
                    Some(rest) => {
                        pend_time = crate::text::parse_i64_chars(&rest);
                    },
                    None => {
                        let parts = crate::text::split_on(&line, ' ');
                        if is_commit_line_exec(&parts) {
                            assert(views(parts@)[0] == parts@[0]@ && views(parts@)[2] == parts@[2]@);
                            cur_sha = crate::text::string_of(&parts[0]);
                            cur_line = match crate::text::parse_unsigned_chars(&parts[2], usize::MAX as u64) {
                                Some(v) => v as usize,
                                None => 0,
                            };
                        }
                    },
                },
            }
        }
        i = i + 1;
    }
    result
}

impl Repo {
    /// Blames a file line by line.
    pub fn blame(&self, file_path: &str, replies: &[Reply]) -> (r: Step<Vec<BlameLine>>)
        ensures
            step_view(r, |v: Vec<BlameLine>| blame_view(v@)) == map_done(
                run_git(replies_view(replies@), 0, self.dir(), seq!["blame"@, "--porcelain"@, "--"@, file_path@]),
                |o: Seq<char>| parse_blame_spec(o),
            ),
    {
        let args = vec![s("blame"), s("--porcelain"), s("--"), s(file_path)];
        assert(strs(args@) =~= seq!["blame"@, "--porcelain"@, "--"@, file_path@]);
        match self.git(replies, 0, args) {
            Flow::Ask(q) => Step::Ask(q),
            Flow::Fail(e) => Step::Done(Err(e)),
            Flow::Got(o) => Step::Done(Ok(parse_blame(o.as_str()))),
        }
    }
}

// ───────────────────────── laws ─────────────────────────

/// A line that starts with `p` (in which `k` is the first space) has its first
/// space-separated field `k` characters long.
proof fn lemma_first_field_len(line: Seq<char>, p: Seq<char>, k: int)
    requires
        starts_with(line, p),
        0 <= k < p.len(),
        p[k] == ' ',
        forall|j: int| 0 <= j < k ==> p[j] != ' ',
    ensures
        split_char(line, ' ')[0].len() == k,
{
    crate::text::lemma_index_of_from_bounds(line, ' ', 0);
    assert(line.take(p.len() as int) == p);
    assert(line[k] == p[k]);
    let i = crate::text::index_of(line, ' ');
    if i < k {
        assert(line[i] == p[i]);
    }
    assert(i == k);
}

/// A commit header line of `git blame --porcelain`, `<40-hex sha> <orig line> <final line>
/// [<count>]`, sets the line number of the lines that follow to its third field, the
/// line's number in the file as it is now (not its number in the commit that brought
/// it); the next content line (`\t` and the text) is reported with that number, that
/// commit and that text.
pub proof fn law_blame_line_number_is_final(st: BlameState, line: Seq<char>, content: Seq<char>)
    requires
        is_commit_line(split_char(trim_end_char(line, '\r'), ' ')),
        content.len() == 0 || content.last() != '\r',
    ensures
        blame_step(st, line).cur_line == usize_or_zero(split_char(trim_end_char(line, '\r'), ' ')[2]),
        blame_step(st, line).cur_sha == split_char(trim_end_char(line, '\r'), ' ')[0],
        blame_step(blame_step(st, line), "\t"@ + content).result.len() == st.result.len() + 1,
        blame_step(blame_step(st, line), "\t"@ + content).result.last().line_no == usize_or_zero(split_char(trim_end_char(line, '\r'), ' ')[2]),
        blame_step(blame_step(st, line), "\t"@ + content).result.last().full_sha == split_char(trim_end_char(line, '\r'), ' ')[0],
        blame_step(blame_step(st, line), "\t"@ + content).result.last().content == content,
{
    reveal_strlit("\t");
    reveal_strlit("author ");
    reveal_strlit("author-time ");
    let l = trim_end_char(line, '\r');
    let parts = split_char(l, ' ');
    assert(is_hex(parts[0][0]));
    assert(parts[0].len() == 40);
    crate::text::lemma_index_of_from_bounds(l, ' ', 0);
    assert(parts[0] == l.take(crate::text::index_of(l, ' ')) || parts[0] == l);
    assert(parts[0][0] == l[0]);
    assert(!starts_with(l, "\t"@)) by {
        if starts_with(l, "\t"@) {
            assert(l.take(1)[0] == l[0]);
        }
    }
    if starts_with(l, "author "@) {
        lemma_first_field_len(l, "author "@, 6);
    }
    if starts_with(l, "author-time "@) {
        lemma_first_field_len(l, "author-time "@, 11);
    }
    let st2 = blame_step(st, line);
    let c = "\t"@ + content;
    assert(trim_end_char(c, '\r') == c) by {
        if content.len() > 0 {
            assert(c.last() == content.last());
        }
    }
    assert(c.take(1) =~= "\t"@);
    assert(c.skip(1) =~= content);
}

} // verus!
