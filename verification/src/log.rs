//! Commit history: log entries, query options, parsing of `git log` output, and the
//! paging window of the history views.
use vstd::prelude::*;
use crate::repo::{Repo, Reply, Step, Flow, Outcome, step_view, map_done, then, run_git, replies_view, strs as arg_strs, s};
use crate::text::decimal;

verus! {

/// One commit of the history.
#[derive(Debug, Clone)]
pub struct LogEntry {
    /// Short SHA.
    pub sha: String,
    /// Full SHA.
    pub full_sha: String,
    /// First line of the message.
    pub message: String,
    pub author: String,
    /// Relative or absolute date, as git printed it.
    pub date: String,
}

/// The page `[skip, skip + max_count)` of `all`, and the anchor: the full SHA of item
/// `skip - 1` (the last one the caller already holds), so the caller can check that the
/// page continues what it has. The first page (`skip == 0`) has no anchor.
pub fn split_window<T, F: Fn(&T) -> &str>(all: Vec<T>, skip: usize, max_count: usize, full_sha: F) -> (r: (Vec<T>, Option<String>))
    requires
        forall|x: &T| #[trigger] full_sha.requires((x,)),
    ensures
        r.0@ == window_spec(all@, skip as int, max_count as int),
        r.1 is None <==> (skip == 0 || skip > all@.len()),
        r.1 is Some ==> exists|s: &str| #[trigger] full_sha.ensures((&all@[skip - 1],), s) && r.1->0@ == s@,
{
    let anchor = if skip >= 1 && skip <= all.len() {
        let s = full_sha(&all[skip - 1]);
        Some(crate::text::string_of(&crate::text::chars_of(s)))
    } else {
        None
    };
    (cut_window(all, skip, max_count), anchor)
}

/// The items `[skip, skip + max_count)` of `all`, cut at its end.
pub fn cut_window<T>(all: Vec<T>, skip: usize, max_count: usize) -> (r: Vec<T>)
    ensures
        r@ == window_spec(all@, skip as int, max_count as int),
{
    let mut all = all;
    let mut window = if skip >= all.len() { Vec::new() } else { all.split_off(skip) };
    window.truncate(max_count);
    window
}

/// Items `[skip, skip + max_count)` of `s`, cut at its end.
pub open spec fn window_spec<T>(s: Seq<T>, skip: int, max_count: int) -> Seq<T> {
    if skip >= s.len() {
        Seq::empty()
    } else if skip + max_count <= s.len() {
        s.subrange(skip, skip + max_count)
    } else {
        s.subrange(skip, s.len() as int)
    }
}

/// Options of a history query.
#[derive(Debug, Clone)]
pub struct LogOptions {
    /// At most this many commits.
    pub max_count: usize,
    /// Skip this many first commits: only the window `[skip, skip + max_count)` is returned.
    pub skip: usize,
    /// Branch or ref (`main`, `HEAD`); `None` for all refs (or HEAD, where noted).
    pub branch: Option<String>,
    /// Author filter (`git log --author=`).
    pub author: Option<String>,
    /// Message filter (`git log --grep=`).
    pub grep: Option<String>,
}

impl Default for LogOptions {
    fn default() -> (r: Self)
        ensures
            r.max_count == 50,
            r.skip == 0,
            r.branch is None,
            r.author is None,
            r.grep is None,
    {
        LogOptions { max_count: 50, skip: 0, branch: None, author: None, grep: None }
    }
}

/// Commits in one ref but not the other (Compare with Current).
#[derive(Debug, Clone)]
pub struct BranchComparison {
    /// In the other ref, not in HEAD (`HEAD..other`).
    pub incoming: Vec<LogEntry>,
    /// In HEAD, not in the other ref (`other..HEAD`).
    pub outgoing: Vec<LogEntry>,
}

/// A commit of the merged history, with the repository it comes from.
#[derive(Debug, Clone)]
pub struct MergedLogEntry {
    pub entry: LogEntry,
    /// Empty for the main repository, else the submodule's path.
    pub repo_label: String,
    /// Absolute path of the repository the commit belongs to.
    pub repo_path: String,
}

/// A page of the merged history.
#[derive(Debug, Clone)]
pub struct MergedLog {
    pub entries: Vec<MergedLogEntry>,
    /// Full SHA of item `skip - 1`; `None` for the first page.
    pub anchor: Option<String>,
}

/// A row of `git log --graph`: the graph prefix, and the commit on commit rows.
#[derive(Debug, Clone)]
pub struct GraphRow {
    pub graph: String,
    pub entry: Option<LogEntry>,
}

// ───────────────────────── parsing ─────────────────────────

pub open spec fn strs(v: Seq<String>) -> Seq<Seq<char>> {
    v.map_values(|s: String| s@)
}

/// The lines of `ls[..n]` that have exactly `nf` NUL-separated fields, as their fields.
pub open spec fn records_upto(ls: Seq<Seq<char>>, nf: nat, n: int) -> Seq<Seq<Seq<char>>>
    decreases n,
{
    if n <= 0 {
        Seq::empty()
    } else {
        records_upto(ls, nf, n - 1) + if crate::text::split_char(ls[n - 1], '\0').len() == nf {
            seq![crate::text::split_char(ls[n - 1], '\0')]
        } else {
            Seq::empty()
        }
    }
}

/// The lines of `text` with exactly `nf` fields.
pub open spec fn records(text: Seq<char>, nf: nat) -> Seq<Seq<Seq<char>>> {
    let ls = crate::text::lines(text);
    records_upto(ls, nf, ls.len() as int)
}

/// A log entry as `(full_sha, sha, message, author, date)`.
pub open spec fn entry_view(e: LogEntry) -> (Seq<char>, Seq<char>, Seq<char>, Seq<char>, Seq<char>) {
    (e.full_sha@, e.sha@, e.message@, e.author@, e.date@)
}

pub open spec fn entries_view(v: Seq<LogEntry>) -> Seq<(Seq<char>, Seq<char>, Seq<char>, Seq<char>, Seq<char>)> {
    v.map_values(|e: LogEntry| entry_view(e))
}

/// The entries of `git log` output of format `%H\0%h\0%s\0%an\0%ai`.
pub open spec fn parse_log_spec(out: Seq<char>) -> Seq<(Seq<char>, Seq<char>, Seq<char>, Seq<char>, Seq<char>)> {
    records(out, 5).map_values(|f: Seq<Seq<char>>| (f[0], f[1], f[2], f[3], f[4]))
}

/// An entry read from fields `%H %h %s %an %ai` (or `%ar`).
pub open spec fn entry_matches(e: LogEntry, f: Seq<Seq<char>>) -> bool {
    &&& e.full_sha@ == f[0]
    &&& e.sha@ == f[1]
    &&& e.message@ == f[2]
    &&& e.author@ == f[3]
    &&& e.date@ == f[4]
}

fn entry_of_fields(f: &Vec<Vec<char>>) -> (e: LogEntry)
    requires
        f.len() >= 5,
    ensures
        entry_matches(e, crate::text::views(f@)),
{
    LogEntry {
        full_sha: crate::text::string_of(&f[0]),
        sha: crate::text::string_of(&f[1]),
        message: crate::text::string_of(&f[2]),
        author: crate::text::string_of(&f[3]),
        date: crate::text::string_of(&f[4]),
    }
}

/// Parses `git log` lines of format `%H\0%h\0%s\0%an\0%ai`; other lines are skipped.
pub fn parse_log(output: &str) -> (r: Vec<LogEntry>)
    ensures
        r.len() == records(output@, 5).len(),
        forall|k: int| 0 <= k < r.len() ==> entry_matches(#[trigger] r@[k], records(output@, 5)[k]),
        entries_view(r@) == parse_log_spec(output@),
{
    let ls = crate::text::lines_of(&crate::text::chars_of(output));
    let ghost lv = crate::text::views(ls@);
    let mut r: Vec<LogEntry> = Vec::new();
    let mut i: usize = 0;
    while i < ls.len()
        invariant
            i <= ls.len(),
            lv == crate::text::views(ls@),
            lv == crate::text::lines(output@),
            r.len() == records_upto(lv, 5, i as int).len(),
            forall|k: int| 0 <= k < r.len() ==> entry_matches(#[trigger] r@[k], records_upto(lv, 5, i as int)[k]),
        decreases ls.len() - i,
    {
        let f = crate::text::split_on(&ls[i], '\0');
        assert(lv[i as int] == ls@[i as int]@);
        let ghost prev = records_upto(lv, 5, i as int);
        if f.len() == 5 {
            r.push(entry_of_fields(&f));
            assert(records_upto(lv, 5, i + 1) == prev.push(crate::text::views(f@)));
        } else {
            assert(records_upto(lv, 5, i + 1) =~= prev);
        }
        i = i + 1;
    }
    assert(entries_view(r@) =~= parse_log_spec(output@));
    r
}

/// The timestamp field: its value, or 0 where it does not parse.
pub open spec fn ts_of(f: Seq<char>) -> int {
    match crate::text::parse_i64(f) {
        Some(v) => v,
        None => 0,
    }
}

pub open spec fn ts_entries_view(v: Seq<(i64, LogEntry)>) -> Seq<(i64, (Seq<char>, Seq<char>, Seq<char>, Seq<char>, Seq<char>))> {
    v.map_values(|p: (i64, LogEntry)| (p.0, entry_view(p.1)))
}

/// The entries of `%H\0%h\0%s\0%an\0%ai\0%at` lines, with their author timestamps.
pub open spec fn parse_ts_spec(out: Seq<char>) -> Seq<(i64, (Seq<char>, Seq<char>, Seq<char>, Seq<char>, Seq<char>))> {
    records(out, 6).map_values(|f: Seq<Seq<char>>| (ts_of(f[5]) as i64, (f[0], f[1], f[2], f[3], f[4])))
}

/// Parses `git log` lines of format `%H\0%h\0%s\0%an\0%ai\0%at` into entries with their
/// author timestamp; other lines are skipped.
pub fn parse_log_with_ts(output: &str) -> (r: Vec<(i64, LogEntry)>)
    ensures
        ts_entries_view(r@) == parse_ts_spec(output@),
        r.len() == records(output@, 6).len(),
        forall|k: int| 0 <= k < r.len() ==> {
            &&& entry_matches((#[trigger] r@[k]).1, records(output@, 6)[k])
            &&& r@[k].0 as int == ts_of(records(output@, 6)[k][5])
        },
{
    let ls = crate::text::lines_of(&crate::text::chars_of(output));
    let ghost lv = crate::text::views(ls@);
    let mut r: Vec<(i64, LogEntry)> = Vec::new();
    let mut i: usize = 0;
    while i < ls.len()
        invariant
            i <= ls.len(),
            lv == crate::text::views(ls@),
            lv == crate::text::lines(output@),
            r.len() == records_upto(lv, 6, i as int).len(),
            forall|k: int| 0 <= k < r.len() ==> {
                &&& entry_matches((#[trigger] r@[k]).1, records_upto(lv, 6, i as int)[k])
                &&& r@[k].0 as int == ts_of(records_upto(lv, 6, i as int)[k][5])
            },
        decreases ls.len() - i,
    {
        let f = crate::text::split_on(&ls[i], '\0');
        assert(lv[i as int] == ls@[i as int]@);
        let ghost prev = records_upto(lv, 6, i as int);
        if f.len() == 6 {
            let ts: i64 = match crate::text::parse_i64_chars(&f[5]) {
                Some(v) => v,
                None => 0,
            };
            assert(crate::text::views(f@)[5] == f@[5]@);
            r.push((ts, entry_of_fields(&f)));
            assert(records_upto(lv, 6, i + 1) == prev.push(crate::text::views(f@)));
        } else {
            assert(records_upto(lv, 6, i + 1) =~= prev);
        }
        i = i + 1;
    }
    assert(ts_entries_view(r@) =~= parse_ts_spec(output@));
    r
}

/// A row of `git log --graph` output: before the first NUL the graph prefix, after it the
/// commit fields (a commit only when there are exactly five); a line without NUL is a
/// pure connector row.
pub open spec fn graph_row_matches(g: GraphRow, l: Seq<char>) -> bool {
    let i = crate::text::index_of(l, '\0');
    if i < l.len() {
        let parts = crate::text::split_char(l.skip(i + 1), '\0');
        &&& g.graph@ == l.take(i)
        &&& match g.entry {
            Some(e) => parts.len() == 5 && entry_matches(e, parts),
            None => parts.len() != 5,
        }
    } else {
        g.graph@ == l && g.entry is None
    }
}

/// A graph row as `(graph prefix, commit)`.
pub open spec fn graph_row_view(g: GraphRow) -> (Seq<char>, Option<(Seq<char>, Seq<char>, Seq<char>, Seq<char>, Seq<char>)>) {
    (g.graph@, match g.entry {
        Some(e) => Some(entry_view(e)),
        None => None,
    })
}

pub open spec fn graph_rows_view(v: Seq<GraphRow>) -> Seq<(Seq<char>, Option<(Seq<char>, Seq<char>, Seq<char>, Seq<char>, Seq<char>)>)> {
    v.map_values(|g: GraphRow| graph_row_view(g))
}

/// The row of one `git log --graph` line.
pub open spec fn graph_row_spec(l: Seq<char>) -> (Seq<char>, Option<(Seq<char>, Seq<char>, Seq<char>, Seq<char>, Seq<char>)>) {
    let i = crate::text::index_of(l, '\0');
    if i < l.len() {
        let p = crate::text::split_char(l.skip(i + 1), '\0');
        (l.take(i), if p.len() == 5 { Some((p[0], p[1], p[2], p[3], p[4])) } else { None })
    } else {
        (l, None)
    }
}

/// Parses `git log --graph` output whose commit lines are `<graph>\0%H\0%h\0%s\0%an\0%ai`.
pub fn parse_graph(output: &str) -> (r: Vec<GraphRow>)
    ensures
        r.len() == crate::text::lines(output@).len(),
        forall|k: int| 0 <= k < r.len() ==> graph_row_matches(#[trigger] r@[k], crate::text::lines(output@)[k]),
        graph_rows_view(r@) == crate::text::lines(output@).map_values(|l: Seq<char>| graph_row_spec(l)),
{
    let ls = crate::text::lines_of(&crate::text::chars_of(output));
    let ghost lv = crate::text::views(ls@);
    let mut r: Vec<GraphRow> = Vec::new();
    let mut i: usize = 0;
    while i < ls.len()
        invariant
            i <= ls.len(),
            lv == crate::text::views(ls@),
            lv == crate::text::lines(output@),
            r.len() == i,
            forall|k: int| 0 <= k < i ==> graph_row_matches(#[trigger] r@[k], lv[k]),
        decreases ls.len() - i,
    {
        let l = &ls[i];
        assert(lv[i as int] == l@);
        let j = crate::text::find_char_from(l, '\0', 0);
        proof {
            crate::text::lemma_index_of_from_bounds(l@, '\0', 0);
        }
        let row = if j < l.len() {
            let rest = crate::text::slice_vec(l, j + 1, l.len());
            assert(rest@ =~= l@.skip(j + 1));
            let parts = crate::text::split_on(&rest, '\0');
            let entry = if parts.len() == 5 { Some(entry_of_fields(&parts)) } else { None };
            let g = crate::text::slice_vec(l, 0, j);
            assert(g@ =~= l@.take(j as int));
            GraphRow { graph: crate::text::string_of(&g), entry }
        } else {
            GraphRow { graph: crate::text::string_of(l), entry: None }
        };
        r.push(row);
        i = i + 1;
    }
    assert forall|k: int| 0 <= k < r.len() implies #[trigger] graph_row_view(r@[k]) == graph_row_spec(lv[k]) by {
        assert(graph_row_matches(r@[k], lv[k]));
    }
    assert(graph_rows_view(r@) =~= lv.map_values(|l: Seq<char>| graph_row_spec(l)));
    r
}

// ───────────────────────── ordering the merged history ─────────────────────────

/// Inserts `x` into a newest-first list after every item at least as new (stable).
pub open spec fn insert_by_ts<T>(s: Seq<(i64, T)>, x: (i64, T)) -> Seq<(i64, T)>
    decreases s.len(),
{
    if s.len() == 0 {
        seq![x]
    } else if s.last().0 >= x.0 {
        s.push(x)
    } else {
        insert_by_ts(s.drop_last(), x).push(s.last())
    }
}

/// The stable newest-first order of `s` (`sort_by_key` with the timestamp reversed).
pub open spec fn sort_by_ts<T>(s: Seq<(i64, T)>) -> Seq<(i64, T)>
    decreases s.len(),
{
    if s.len() == 0 {
        Seq::empty()
    } else {
        insert_by_ts(sort_by_ts(s.drop_last()), s.last())
    }
}

/// Sorts newest first; items with the same timestamp keep their order.
pub fn sort_newest_first<T>(rows: Vec<(i64, T)>) -> (r: Vec<(i64, T)>)
    ensures
        r@ == sort_by_ts(rows@),
{
    let mut out: Vec<(i64, T)> = Vec::new();
    let mut rows = rows;
    let mut rest: Vec<(i64, T)> = Vec::new();
    // take the rows front to back
    let ghost all = rows@;
    let n = rows.len();
    let mut k: usize = 0;
    while k < n
        invariant
            k <= n,
            n == all.len(),
            rows@ == all.take(n - k),
            rest@ == all.skip(n - k).reverse(),
        decreases n - k,
    {
        let x = rows.pop().unwrap();
        rest.push(x);
        assert(rows@ =~= all.take(n - k - 1));
        assert(rest@ =~= all.skip(n - (k + 1)).reverse());
        k = k + 1;
    }
    assert(rest@ =~= all.reverse());
    let mut i: usize = 0;
    assert(out@ =~= sort_by_ts(all.take(0)));
    while i < n
        invariant
            i <= n,
            n == all.len(),
            rest@ == all.skip(i as int).reverse(),
            out@ == sort_by_ts(all.take(i as int)),
        decreases n - i,
    {
        let x = rest.pop().unwrap();
        assert(x == all[i as int]);
        assert(rest@ =~= all.skip(i + 1).reverse());
        let ghost before = out@;
        insert_newest_first(&mut out, x);
        assert(all.take(i + 1).drop_last() =~= all.take(i as int));
        i = i + 1;
    }
    assert(all.take(n as int) =~= all);
    out
}

fn insert_newest_first<T>(out: &mut Vec<(i64, T)>, x: (i64, T))
    ensures
        final(out)@ == insert_by_ts(old(out)@, x),
    decreases old(out)@.len(),
{
    if out.len() == 0 {
        out.push(x);
        return;
    }
    if out[out.len() - 1].0 >= x.0 {
        out.push(x);
        return;
    }
    let last = out.pop().unwrap();
    insert_newest_first(out, x);
    out.push(last);
}

pub open spec fn newest_first<T>(s: Seq<(i64, T)>) -> bool {
    forall|i: int, j: int| 0 <= i < j < s.len() ==> (#[trigger] s[i]).0 >= (#[trigger] s[j]).0
}

proof fn lemma_insert_by_ts<T>(s: Seq<(i64, T)>, x: (i64, T), m: i64)
    requires
        newest_first(s),
    ensures
        newest_first(insert_by_ts(s, x)),
        insert_by_ts(s, x).len() == s.len() + 1,
        (forall|k: int| 0 <= k < s.len() ==> (#[trigger] s[k]).0 >= m) && x.0 >= m ==> forall|k: int|
            0 <= k < insert_by_ts(s, x).len() ==> (#[trigger] insert_by_ts(s, x)[k]).0 >= m,
    decreases s.len(),
{
    if s.len() == 0 {
    } else if s.last().0 >= x.0 {
        let r = s.push(x);
        assert forall|i: int, j: int| 0 <= i < j < r.len() implies (#[trigger] r[i]).0 >= (#[trigger] r[j]).0 by {
            if j == r.len() - 1 && i < s.len() - 1 {
                assert(s[i].0 >= s[s.len() - 1].0);
            }
        }
    } else {
        let l = s.last();
        let sp = s.drop_last();
        assert forall|i: int, j: int| 0 <= i < j < sp.len() implies (#[trigger] sp[i]).0 >= (#[trigger] sp[j]).0 by {
            assert(sp[i] == s[i] && sp[j] == s[j]);
        }
        assert forall|k: int| 0 <= k < sp.len() implies (#[trigger] sp[k]).0 >= l.0 by {
            assert(sp[k] == s[k]);
            assert(s[k].0 >= s[s.len() - 1].0);
        }
        lemma_insert_by_ts(sp, x, l.0);
        lemma_insert_by_ts(sp, x, m);
        let q = insert_by_ts(sp, x);
        let r = q.push(l);
        assert forall|i: int, j: int| 0 <= i < j < r.len() implies (#[trigger] r[i]).0 >= (#[trigger] r[j]).0 by {
            if j == r.len() - 1 {
                assert(q[i].0 >= l.0);
            } else {
                assert(r[i] == q[i] && r[j] == q[j]);
            }
        }
        if (forall|k: int| 0 <= k < s.len() ==> (#[trigger] s[k]).0 >= m) && x.0 >= m {
            assert forall|k: int| 0 <= k < sp.len() implies (#[trigger] sp[k]).0 >= m by {
                assert(sp[k] == s[k]);
            }
            assert forall|k: int| 0 <= k < r.len() implies (#[trigger] r[k]).0 >= m by {
                if k < q.len() {
                    assert(r[k] == q[k]);
                } else {
                    assert(r[k] == s[s.len() - 1]);
                }
            }
        }
    }
}

proof fn lemma_insert_multiset<T>(s: Seq<(i64, T)>, x: (i64, T))
    ensures
        insert_by_ts(s, x).to_multiset() =~= s.to_multiset().insert(x),
    decreases s.len(),
{
    broadcast use vstd::seq_lib::group_to_multiset_ensures;
    if s.len() == 0 {
        assert(seq![x] =~= Seq::<(i64, T)>::empty().push(x));
    } else if s.last().0 >= x.0 {
    } else {
        lemma_insert_multiset(s.drop_last(), x);
        assert(s =~= s.drop_last().push(s.last()));
    }
}

/// The merged history is ordered newest first, and nothing is lost or added in sorting:
/// the sorted list holds the same items, each as often.
pub proof fn law_sort_newest_first<T>(s: Seq<(i64, T)>)
    ensures
        newest_first(sort_by_ts(s)),
        sort_by_ts(s).len() == s.len(),
        sort_by_ts(s).to_multiset() =~= s.to_multiset(),
    decreases s.len(),
{
    broadcast use vstd::seq_lib::group_to_multiset_ensures;
    if s.len() > 0 {
        law_sort_newest_first(s.drop_last());
        lemma_insert_by_ts(sort_by_ts(s.drop_last()), s.last(), 0);
        lemma_insert_multiset(sort_by_ts(s.drop_last()), s.last());
        assert(s =~= s.drop_last().push(s.last()));
    } else {
        assert(sort_by_ts(s) =~= s);
    }
}

// ───────────────────────── history queries ─────────────────────────

/// The query options as sequences.
pub struct LogOptsV {
    pub max_count: nat,
    pub skip: nat,
    pub branch: Option<Seq<char>>,
    pub author: Option<Seq<char>>,
    pub grep: Option<Seq<char>>,
}

impl LogOptions {
    pub open spec fn view(&self) -> LogOptsV {
        LogOptsV {
            max_count: self.max_count as nat,
            skip: self.skip as nat,
            branch: crate::repo::opt_str(self.branch),
            author: crate::repo::opt_str(self.author),
            grep: crate::repo::opt_str(self.grep),
        }
    }
}

/// `head`, `-<count>`, the author and message filters (case-insensitive), then the
/// branch, or `--all` when no branch is given and `all_refs` holds.
pub open spec fn history_args(head: Seq<Seq<char>>, count: nat, o: LogOptsV, all_refs: bool) -> Seq<Seq<char>> {
    head + seq!["-"@ + decimal(count)] + (match o.author {
        Some(a) => seq!["--author="@ + a, "--regexp-ignore-case"@],
        None => Seq::empty(),
    }) + (match o.grep {
        Some(g) => seq!["--grep="@ + g, "--regexp-ignore-case"@],
        None => Seq::empty(),
    }) + (match o.branch {
        Some(b) => seq![b],
        None => if all_refs { seq!["--all"@] } else { Seq::empty() },
    })
}

fn concat_str(a: &str, b: &String) -> (r: String)
    ensures
        r@ == a@ + b@,
{
    let mut v = crate::text::chars_of(a);
    crate::text::push_chars(&mut v, &crate::text::chars_of(b.as_str()));
    crate::text::string_of(&v)
}

pub fn history_args_exec(head: Vec<String>, count: usize, opts: &LogOptions, all_refs: bool) -> (r: Vec<String>)
    ensures
        arg_strs(r@) == history_args(arg_strs(head@), count as nat, opts.view(), all_refs),
{
    let mut args = head;
    let mut c = crate::text::chars_of("-");
    crate::text::push_decimal(&mut c, count as u64);
    args.push(crate::text::string_of(&c));
    match &opts.author {
        Some(a) => {
            args.push(concat_str("--author=", a));
            args.push(s("--regexp-ignore-case"));
        },
        None => {},
    }
    match &opts.grep {
        Some(g) => {
            args.push(concat_str("--grep=", g));
            args.push(s("--regexp-ignore-case"));
        },
        None => {},
    }
    match &opts.branch {
        Some(b) => {
            args.push(b.clone());
        },
        None => {
            if all_refs {
                args.push(s("--all"));
            }
        },
    }
    assert(arg_strs(args@) =~= history_args(arg_strs(head@), count as nat, opts.view(), all_refs));
    args
}

pub open spec fn log_head() -> Seq<Seq<char>> {
    seq!["log"@, "--pretty=format:%H%x00%h%x00%s%x00%an%x00%ai"@]
}

pub open spec fn graph_head() -> Seq<Seq<char>> {
    seq!["log"@, "--graph"@, "--color=never"@, "--pretty=format:%x00%H%x00%h%x00%s%x00%an%x00%ai"@]
}

pub open spec fn topo_head() -> Seq<Seq<char>> {
    seq!["log"@, "--topo-order"@, "--pretty=format:%H%x00%P%x00%h%x00%s%x00%an%x00%ar"@]
}

pub open spec fn file_history_args(o: LogOptsV, path: Seq<char>) -> Seq<Seq<char>> {
    history_args(seq!["log"@, "--follow"@, "--pretty=format:%H%x00%h%x00%s%x00%an%x00%ai"@], o.max_count, o, false) + seq!["--"@, path]
}

impl Repo {
    /// The history (newest first) under the query options; all refs unless a branch is given.
    pub fn log(&self, opts: &LogOptions, replies: &[Reply]) -> (r: Step<Vec<LogEntry>>)
        ensures
            step_view(r, |v: Vec<LogEntry>| entries_view(v@)) == map_done(
                run_git(replies_view(replies@), 0, self.dir(), history_args(log_head(), opts.view().max_count, opts.view(), true)),
                |o: Seq<char>| parse_log_spec(o),
            ),
    {
        let head = vec![s("log"), s("--pretty=format:%H%x00%h%x00%s%x00%an%x00%ai")];
        assert(arg_strs(head@) =~= log_head());
        let args = history_args_exec(head, opts.max_count, opts, true);
        match self.git(replies, 0, args) {
            Flow::Ask(q) => Step::Ask(q),
            Flow::Fail(e) => Step::Done(Err(e)),
            Flow::Got(o) => Step::Done(Ok(parse_log(o.as_str()))),
        }
    }

    /// The commits of a revision range such as `A..B`, newest first.
    pub fn rev_range(&self, range: &str, replies: &[Reply], k: usize) -> (r: Flow<Vec<LogEntry>>)
        ensures
            crate::repo::flow_view(r, |v: Vec<LogEntry>| entries_view(v@)) == map_done(
                run_git(replies_view(replies@), k as int, self.dir(), seq!["log"@, "--pretty=format:%H%x00%h%x00%s%x00%an%x00%ai"@, range@]),
                |o: Seq<char>| parse_log_spec(o),
            ),
    {
        let args = vec![s("log"), s("--pretty=format:%H%x00%h%x00%s%x00%an%x00%ai"), s(range)];
        assert(arg_strs(args@) =~= seq!["log"@, "--pretty=format:%H%x00%h%x00%s%x00%an%x00%ai"@, range@]);
        match self.git(replies, k, args) {
            Flow::Ask(q) => Flow::Ask(q),
            Flow::Fail(e) => Flow::Fail(e),
            Flow::Got(o) => Flow::Got(parse_log(o.as_str())),
        }
    }

    /// The commits in `other` but not in HEAD, and in HEAD but not in `other`.
    pub fn compare_commits(&self, other: &str, replies: &[Reply]) -> (r: Step<BranchComparison>)
        ensures
            step_view(r, |c: BranchComparison| (entries_view(c.incoming@), entries_view(c.outgoing@))) == then(
                map_done(run_git(replies_view(replies@), 0, self.dir(), seq!["log"@, "--pretty=format:%H%x00%h%x00%s%x00%an%x00%ai"@, "HEAD.."@ + other@]), |o: Seq<char>| parse_log_spec(o)),
                |inc: Seq<(Seq<char>, Seq<char>, Seq<char>, Seq<char>, Seq<char>)>| map_done(
                    run_git(replies_view(replies@), 1, self.dir(), seq!["log"@, "--pretty=format:%H%x00%h%x00%s%x00%an%x00%ai"@, other@ + "..HEAD"@]),
                    |o: Seq<char>| (inc, parse_log_spec(o)),
                ),
            ),
    {
        let mut a = crate::text::chars_of("HEAD..");
        crate::text::push_str(&mut a, other);
        let ra = crate::text::string_of(&a);
        let incoming = match self.rev_range(ra.as_str(), replies, 0) {
            Flow::Ask(q) => {
                return Step::Ask(q);
            },
            Flow::Fail(e) => {
                return Step::Done(Err(e));
            },
            Flow::Got(v) => v,
        };
        let mut b = crate::text::chars_of(other);
        crate::text::push_str(&mut b, "..HEAD");
        let rb = crate::text::string_of(&b);
        match self.rev_range(rb.as_str(), replies, 1) {
            Flow::Ask(q) => Step::Ask(q),
            Flow::Fail(e) => Step::Done(Err(e)),
            Flow::Got(outgoing) => Step::Done(Ok(BranchComparison { incoming, outgoing })),
        }
    }

    /// The history of one file, following renames.
    pub fn file_history(&self, file_path: &str, opts: &LogOptions, replies: &[Reply]) -> (r: Step<Vec<LogEntry>>)
        ensures
            step_view(r, |v: Vec<LogEntry>| entries_view(v@)) == map_done(
                run_git(replies_view(replies@), 0, self.dir(), file_history_args(opts.view(), file_path@)),
                |o: Seq<char>| parse_log_spec(o),
            ),
    {
        let head = vec![s("log"), s("--follow"), s("--pretty=format:%H%x00%h%x00%s%x00%an%x00%ai")];
        assert(arg_strs(head@) =~= seq!["log"@, "--follow"@, "--pretty=format:%H%x00%h%x00%s%x00%an%x00%ai"@]);
        let mut args = history_args_exec(head, opts.max_count, opts, false);
        args.push(s("--"));
        args.push(s(file_path));
        assert(arg_strs(args@) =~= file_history_args(opts.view(), file_path@));
        match self.git(replies, 0, args) {
            Flow::Ask(q) => Step::Ask(q),
            Flow::Fail(e) => Step::Done(Err(e)),
            Flow::Got(o) => Step::Done(Ok(parse_log(o.as_str()))),
        }
    }

    /// The history with git's own graph column (`git log --graph`), one row per line.
    pub fn log_graph(&self, opts: &LogOptions, replies: &[Reply]) -> (r: Step<Vec<GraphRow>>)
        ensures
            step_view(r, |v: Vec<GraphRow>| graph_rows_view(v@)) == map_done(
                run_git(replies_view(replies@), 0, self.dir(), history_args(graph_head(), opts.view().max_count, opts.view(), false)),
                |o: Seq<char>| crate::text::lines(o).map_values(|l: Seq<char>| graph_row_spec(l)),
            ),
    {
        let head = vec![s("log"), s("--graph"), s("--color=never"), s("--pretty=format:%x00%H%x00%h%x00%s%x00%an%x00%ai")];
        assert(arg_strs(head@) =~= graph_head());
        let args = history_args_exec(head, opts.max_count, opts, false);
        match self.git(replies, 0, args) {
            Flow::Ask(q) => Step::Ask(q),
            Flow::Fail(e) => Step::Done(Err(e)),
            Flow::Got(o) => Step::Done(Ok(parse_graph(o.as_str()))),
        }
    }

    /// The lane layout of the history (`--topo-order`): each commit's lane and edges, for
    /// the window `[skip, skip + max_count)`. The lanes depend on every commit before the
    /// window, so `skip + max_count` commits are read and laid out before the cut.
    pub fn log_topology(&self, opts: &LogOptions, replies: &[Reply]) -> (r: Step<Vec<crate::topology::GraphCommit>>)
        requires
            opts.skip + opts.max_count <= usize::MAX,
        ensures
            step_view(r, |v: Vec<crate::topology::GraphCommit>| crate::topology::graphs_view(v@)) == map_done(
                run_git(replies_view(replies@), 0, self.dir(), history_args(topo_head(), opts.view().skip + opts.view().max_count, opts.view(), true)),
                |o: Seq<char>| window_spec(crate::topology::topology_spec(crate::topology::parse_topo_raw_spec(o)), opts.skip as int, opts.max_count as int),
            ),
    {
        let head = vec![s("log"), s("--topo-order"), s("--pretty=format:%H%x00%P%x00%h%x00%s%x00%an%x00%ar")];
        assert(arg_strs(head@) =~= topo_head());
        let args = history_args_exec(head, opts.skip + opts.max_count, opts, true);
        match self.git(replies, 0, args) {
            Flow::Ask(q) => Step::Ask(q),
            Flow::Fail(e) => Step::Done(Err(e)),
            Flow::Got(o) => {
                let raws = crate::topology::parse_topo_raw_full(o.as_str());
                let all = crate::topology::layout(&raws);
                let ghost full = crate::topology::graphs_view(all@);
                let w = cut_window(all, opts.skip, opts.max_count);
                assert(crate::topology::graphs_view(w@) =~= window_spec(full, opts.skip as int, opts.max_count as int));
                Step::Done(Ok(w))
            },
        }
    }
}

} // verus!
