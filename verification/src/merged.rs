//! Histories over the main repository and its initialised submodules: the merged commit
//! list (newest first), the multi-root lane graph, and a submodule's commits in a range.
//!
//! Each repository's log is one request; a submodule that cannot be opened or read is left
//! out, while a failure of the main repository's log fails the whole query.
use vstd::prelude::*;
use crate::text::{lines, views};
use crate::error::{Error, ErrorV};
use crate::repo::{Repo, Reply, Step, Flow, Outcome, ReplyV, step_view, flow_view, map_done, then, run_git, replies_view, strs, s, path_join};
use crate::log::{LogEntry, LogOptions, LogOptsV, MergedLogEntry, MergedLog, history_args, entry_view, entries_view, parse_ts_spec, ts_entries_view, sort_by_ts, insert_by_ts, window_spec, parse_log_spec};
use crate::submodule::{Submodule, SubmoduleStatus, SubmoduleV, list_subs_at, subs_view, res_subs};
use crate::topology::{RepoInput, RawCommit, MergedGraphLog, multi_layout, commit_records, raw_matches, ts_field};

verus! {

pub type EntryV = (Seq<char>, Seq<char>, Seq<char>, Seq<char>, Seq<char>);

/// A merged entry as (entry, label, path).
pub type MEntryV = (EntryV, Seq<char>, Seq<char>);

pub open spec fn mentry_view(e: MergedLogEntry) -> MEntryV {
    (entry_view(e.entry), e.repo_label@, e.repo_path@)
}

pub open spec fn mentries_view(v: Seq<MergedLogEntry>) -> Seq<MEntryV> {
    v.map_values(|e: MergedLogEntry| mentry_view(e))
}

pub open spec fn mrows_view(v: Seq<(i64, MergedLogEntry)>) -> Seq<(i64, MEntryV)> {
    v.map_values(|p: (i64, MergedLogEntry)| (p.0, mentry_view(p.1)))
}

/// Rows of one repository, marked with its label and path.
pub open spec fn tagged(rows: Seq<(i64, EntryV)>, label: Seq<char>, path: Seq<char>) -> Seq<(i64, MEntryV)> {
    rows.map_values(|p: (i64, EntryV)| (p.0, (p.1, label, path)))
}

/// The initialised submodules among `subs[..n]`.
pub open spec fn live_upto(subs: Seq<SubmoduleV>, n: int) -> Seq<SubmoduleV>
    decreases n,
{
    if n <= 0 {
        Seq::empty()
    } else {
        live_upto(subs, n - 1) + if subs[n - 1].status != SubmoduleStatus::Uninitialized {
            seq![subs[n - 1]]
        } else {
            Seq::empty()
        }
    }
}

pub open spec fn live_subs(subs: Seq<SubmoduleV>) -> Seq<SubmoduleV> {
    live_upto(subs, subs.len() as int)
}

pub open spec fn ts_head() -> Seq<Seq<char>> {
    seq!["log"@, "--pretty=format:%H%x00%h%x00%s%x00%an%x00%ai%x00%at"@]
}

pub open spec fn date_head() -> Seq<Seq<char>> {
    seq!["log"@, "--date-order"@, "--pretty=format:%H%x00%P%x00%h%x00%s%x00%an%x00%ar%x00%at"@]
}

/// The rows of the submodules `subs[i..]` (from reply `k`): each is opened and its log read
/// with `head`; one that fails gives no rows.
pub open spec fn sub_rows_from(rs: Seq<ReplyV>, k: int, dir: Seq<char>, subs: Seq<SubmoduleV>, i: int, args: Seq<Seq<char>>) -> Outcome<Seq<(i64, MEntryV)>>
    decreases subs.len() - i,
{
    if i < 0 || i >= subs.len() {
        Outcome::Done(Seq::empty())
    } else {
        let abs = path_join(dir, subs[i].path);
        match run_git(rs, k, abs, crate::update::git_dir_args()) {
            Outcome::Ask(q) => Outcome::Ask(q),
            Outcome::Fail(_) => sub_rows_from(rs, k + 1, dir, subs, i + 1, args),
            Outcome::Done(_) => match run_git(rs, k + 1, abs, args) {
                Outcome::Ask(q) => Outcome::Ask(q),
                Outcome::Fail(_) => sub_rows_from(rs, k + 2, dir, subs, i + 1, args),
                Outcome::Done(out) => map_done(sub_rows_from(rs, k + 2, dir, subs, i + 1, args), |rest: Seq<(i64, MEntryV)>|
                    tagged(parse_ts_spec(out), subs[i].path, abs) + rest),
            },
        }
    }
}

/// The page of `all` and its anchor (the full SHA of the item before the page).
pub open spec fn page_of(all: Seq<MEntryV>, skip: int, max_count: int) -> (Seq<MEntryV>, Option<Seq<char>>) {
    (window_spec(all, skip, max_count), if skip == 0 || skip > all.len() { None } else { Some(all[skip - 1].0.0) })
}

/// The merged history: the main repository's rows (label empty), then those of each
/// initialised submodule, sorted newest first (stable), then paged.
pub open spec fn merged_spec(rs: Seq<ReplyV>, dir: Seq<char>, o: LogOptsV) -> Outcome<(Seq<MEntryV>, Option<Seq<char>>)> {
    let args = history_args(ts_head(), o.skip + o.max_count, o, true);
    match list_subs_at(rs, 0, dir) {
        Outcome::Ask(q) => Outcome::Ask(q),
        Outcome::Fail(e) => Outcome::Fail(e),
        Outcome::Done((Err(e), _)) => Outcome::Fail(e),
        Outcome::Done((Ok(subs), k1)) => then(run_git(rs, k1, dir, args), |main: Seq<char>|
            map_done(sub_rows_from(rs, k1 + 1, dir, live_subs(subs), 0, args), |rest: Seq<(i64, MEntryV)>|
                page_of(sort_by_ts(tagged(parse_ts_spec(main), Seq::empty(), dir) + rest).map_values(|p: (i64, MEntryV)| p.1), o.skip as int, o.max_count as int))),
    }
}

// ───────────────────────── sorting keeps the payload's view ─────────────────────────

proof fn lemma_insert_map<T>(s: Seq<(i64, T)>, x: (i64, T), f: spec_fn(T) -> MEntryV)
    ensures
        insert_by_ts(s.map_values(|p: (i64, T)| (p.0, f(p.1))), (x.0, f(x.1))) == insert_by_ts(s, x).map_values(|p: (i64, T)| (p.0, f(p.1))),
    decreases s.len(),
{
    let g = |p: (i64, T)| (p.0, f(p.1));
    if s.len() == 0 {
        assert(insert_by_ts(s, x).map_values(g) =~= seq![g(x)]);
    } else {
        assert(s.map_values(g).last() == g(s.last()));
        assert(s.map_values(g).drop_last() =~= s.drop_last().map_values(g));
        if s.last().0 >= x.0 {
            assert(insert_by_ts(s, x).map_values(g) =~= s.map_values(g).push(g(x)));
        } else {
            lemma_insert_map(s.drop_last(), x, f);
            assert(insert_by_ts(s, x).map_values(g) =~= insert_by_ts(s.drop_last(), x).map_values(g).push(g(s.last())));
        }
    }
}

proof fn lemma_sort_map<T>(s: Seq<(i64, T)>, f: spec_fn(T) -> MEntryV)
    ensures
        sort_by_ts(s.map_values(|p: (i64, T)| (p.0, f(p.1)))) == sort_by_ts(s).map_values(|p: (i64, T)| (p.0, f(p.1))),
    decreases s.len(),
{
    let g = |p: (i64, T)| (p.0, f(p.1));
    if s.len() == 0 {
        assert(s.map_values(g) =~= Seq::<(i64, MEntryV)>::empty());
        assert(sort_by_ts(s).map_values(g) =~= Seq::<(i64, MEntryV)>::empty());
    } else {
        assert(s.map_values(g).last() == g(s.last()));
        assert(s.map_values(g).drop_last() =~= s.drop_last().map_values(g));
        lemma_sort_map(s.drop_last(), f);
        lemma_insert_map(sort_by_ts(s.drop_last()), s.last(), f);
    }
}

// ───────────────────────── exec ─────────────────────────

fn ts_args_exec(opts: &LogOptions, date_order: bool) -> (r: Vec<String>)
    requires
        opts.skip + opts.max_count <= usize::MAX,
    ensures
        strs(r@) == history_args(if date_order { date_head() } else { ts_head() }, opts.view().skip + opts.view().max_count, opts.view(), true),
{
    let head = if date_order {
        let h = vec![s("log"), s("--date-order"), s("--pretty=format:%H%x00%P%x00%h%x00%s%x00%an%x00%ar%x00%at")];
        assert(strs(h@) =~= date_head());
        h
    } else {
        let h = vec![s("log"), s("--pretty=format:%H%x00%h%x00%s%x00%an%x00%ai%x00%at")];
        assert(strs(h@) =~= ts_head());
        h
    };
    crate::log::history_args_exec(head, opts.skip + opts.max_count, opts, true)
}

fn copy_entry(e: &LogEntry) -> (r: LogEntry)
    ensures
        entry_view(r) == entry_view(*e),
{
    LogEntry { full_sha: e.full_sha.clone(), sha: e.sha.clone(), message: e.message.clone(), author: e.author.clone(), date: e.date.clone() }
}

fn tag_rows(rows: Vec<(i64, LogEntry)>, label: &String, path: &String) -> (r: Vec<(i64, MergedLogEntry)>)
    ensures
        mrows_view(r@) == tagged(ts_entries_view(rows@), label@, path@),
{
    let mut out: Vec<(i64, MergedLogEntry)> = Vec::new();
    let mut i: usize = 0;
    let ghost rv = ts_entries_view(rows@);
    while i < rows.len()
        invariant
            i <= rows.len(),
            rv == ts_entries_view(rows@),
            mrows_view(out@) == tagged(rv, label@, path@).take(i as int),
        decreases rows.len() - i,
    {
        let ts = rows[i].0;
        let e = copy_entry(&rows[i].1);
        let ghost before = mrows_view(out@);
        out.push((ts, MergedLogEntry { entry: e, repo_label: label.clone(), repo_path: path.clone() }));
        assert(mrows_view(out@) =~= before.push((ts, (entry_view(rows@[i as int].1), label@, path@))));
        assert(tagged(rv, label@, path@).take(i + 1) =~= tagged(rv, label@, path@).take(i as int).push(tagged(rv, label@, path@)[i as int]));
        i = i + 1;
    }
    assert(tagged(rv, label@, path@).take(rows.len() as int) =~= tagged(rv, label@, path@));
    out
}


fn copy_mentry(e: &MergedLogEntry) -> (r: MergedLogEntry)
    ensures
        mentry_view(r) == mentry_view(*e),
{
    MergedLogEntry { entry: copy_entry(&e.entry), repo_label: e.repo_label.clone(), repo_path: e.repo_path.clone() }
}

fn drop_ts(v: &Vec<(i64, MergedLogEntry)>) -> (r: Vec<MergedLogEntry>)
    ensures
        mentries_view(r@) == mrows_view(v@).map_values(|p: (i64, MEntryV)| p.1),
{
    let ghost target = mrows_view(v@).map_values(|p: (i64, MEntryV)| p.1);
    let mut out: Vec<MergedLogEntry> = Vec::new();
    let mut i: usize = 0;
    while i < v.len()
        invariant
            i <= v.len(),
            target == mrows_view(v@).map_values(|p: (i64, MEntryV)| p.1),
            mentries_view(out@) == target.take(i as int),
        decreases v.len() - i,
    {
        let e = copy_mentry(&v[i].1);
        let ghost before = mentries_view(out@);
        out.push(e);
        assert(mentries_view(out@) =~= before.push(mentry_view(v@[i as int].1)));
        assert(target.take(i + 1) =~= target.take(i as int).push(target[i as int]));
        i = i + 1;
    }
    assert(target.take(v.len() as int) =~= target);
    out
}

fn live_filter(subs: &Vec<Submodule>) -> (r: Vec<Submodule>)
    ensures
        subs_view(r@) == live_subs(subs_view(subs@)),
{
    let ghost sv = subs_view(subs@);
    let mut out: Vec<Submodule> = Vec::new();
    let mut i: usize = 0;
    assert(subs_view(out@) =~= live_upto(sv, 0));
    while i < subs.len()
        invariant
            i <= subs.len(),
            sv == subs_view(subs@),
            subs_view(out@) == live_upto(sv, i as int),
        decreases subs.len() - i,
    {
        assert(sv[i as int].status == subs@[i as int].status);
        if subs[i].status != SubmoduleStatus::Uninitialized {
            let m = Submodule { name: subs[i].name.clone(), path: subs[i].path.clone(), status: subs[i].status };
            let ghost before = subs_view(out@);
            out.push(m);
            assert(subs_view(out@) =~= before.push(sv[i as int]));
        } else {
            assert(live_upto(sv, i + 1) =~= live_upto(sv, i as int));
        }
        i = i + 1;
    }
    out
}

/// The anchor and page of the merged list.
fn page_entries(all: Vec<MergedLogEntry>, skip: usize, max_count: usize) -> (r: (Vec<MergedLogEntry>, Option<String>))
    ensures
        (mentries_view(r.0@), crate::repo::opt_str(r.1)) == page_of(mentries_view(all@), skip as int, max_count as int),
{
    let ghost av = mentries_view(all@);
    let (window, anchor) = crate::log::split_window(all, skip, max_count, |e: &MergedLogEntry| -> (r: &str)
        ensures
            r@ == e.entry.full_sha@,
    { e.entry.full_sha.as_str() });
    proof {
        if skip >= 1 && skip <= av.len() {
            assert(av[skip - 1].0.0 == all@[skip - 1].entry.full_sha@);
        }
    }
    assert(mentries_view(window@) =~= window_spec(av, skip as int, max_count as int));
    (window, anchor)
}

impl Repo {
    fn sub_rows_from(&self, replies: &[Reply], k: usize, subs: &Vec<Submodule>, i: usize, args: &Vec<String>) -> (r: Flow<Vec<(i64, MergedLogEntry)>>)
        requires
            i <= subs.len(),
        ensures
            flow_view(r, |v: Vec<(i64, MergedLogEntry)>| mrows_view(v@)) == sub_rows_from(replies_view(replies@), k as int, self.dir(), subs_view(subs@), i as int, strs(args@)),
        decreases subs.len() - i,
    {
        if i >= subs.len() {
            let v: Vec<(i64, MergedLogEntry)> = Vec::new();
            assert(mrows_view(v@) =~= Seq::<(i64, MEntryV)>::empty());
            return Flow::Got(v);
        }
        assert(subs_view(subs@)[i as int].path == subs@[i as int].path@);
        let abs = crate::repo::join_any(self.workdir(), subs[i].path.as_str());
        let sub = Repo::at(abs.as_str());
        let a0 = vec![s("rev-parse"), s("--git-dir")];
        assert(strs(a0@) =~= crate::update::git_dir_args());
        match sub.git(replies, k, a0) {
            Flow::Ask(q) => {
                return Flow::Ask(q);
            },
            Flow::Fail(_) => {
                return self.sub_rows_from(replies, k + 1, subs, i + 1, args);
            },
            Flow::Got(_) => {},
        }
        let out = match sub.git(replies, k + 1, crate::repo::copy_strings(args)) {
            Flow::Ask(q) => {
                return Flow::Ask(q);
            },
            Flow::Fail(_) => {
                return self.sub_rows_from(replies, k + 2, subs, i + 1, args);
            },
            Flow::Got(o) => o,
        };
        let mut rows = tag_rows(crate::log::parse_log_with_ts(out.as_str()), &subs[i].path, &abs);
        match self.sub_rows_from(replies, k + 2, subs, i + 1, args) {
            Flow::Ask(q) => Flow::Ask(q),
            Flow::Fail(e) => Flow::Fail(e),
            Flow::Got(rest) => {
                let ghost r0 = mrows_view(rows@);
                let mut rest = rest;
                let ghost rv = mrows_view(rest@);
                rows.append(&mut rest);
                assert(mrows_view(rows@) =~= r0 + rv);
                Flow::Got(rows)
            },
        }
    }

    /// The history of the main repository and its initialised submodules, merged newest
    /// first, each entry marked with its repository; then the page `skip..skip+max_count`.
    pub fn log_merged(&self, opts: &LogOptions, replies: &[Reply]) -> (r: Step<MergedLog>)
        requires
            opts.skip + opts.max_count <= usize::MAX,
        ensures
            step_view(r, |m: MergedLog| (mentries_view(m.entries@), crate::repo::opt_str(m.anchor))) == merged_spec(replies_view(replies@), self.dir(), opts.view()),
    {
        let (subs, k1) = match self.list_subs_from(replies, 0) {
            Flow::Ask(q) => {
                return Step::Ask(q);
            },
            Flow::Fail(e) => {
                return Step::Done(Err(e));
            },
            Flow::Got((Err(e), _)) => {
                return Step::Done(Err(e));
            },
            Flow::Got((Ok(v), k1)) => (v, k1),
        };
        let live = live_filter(&subs);
        let args = ts_args_exec(opts, false);
        let main = match self.git(replies, k1, crate::repo::copy_strings(&args)) {
            Flow::Ask(q) => {
                return Step::Ask(q);
            },
            Flow::Fail(e) => {
                return Step::Done(Err(e));
            },
            Flow::Got(o) => o,
        };
        let empty = String::new();
        let mut rows = tag_rows(crate::log::parse_log_with_ts(main.as_str()), &empty, self.workdir());
        let rest = match self.sub_rows_from(replies, k1 + 1, &live, 0, &args) {
            Flow::Ask(q) => {
                return Step::Ask(q);
            },
            Flow::Fail(e) => {
                return Step::Done(Err(e));
            },
            Flow::Got(v) => v,
        };
        let ghost r0 = mrows_view(rows@);
        let mut rest = rest;
        let ghost rv = mrows_view(rest@);
        rows.append(&mut rest);
        assert(mrows_view(rows@) =~= r0 + rv);
        let ghost unsorted = rows@;
        let sorted = crate::log::sort_newest_first(rows);
        proof {
            lemma_sort_map(unsorted, |e: MergedLogEntry| mentry_view(e));
            assert(mrows_view(unsorted) =~= unsorted.map_values(|p: (i64, MergedLogEntry)| (p.0, (|e: MergedLogEntry| mentry_view(e))(p.1))));
            assert(mrows_view(sorted@) =~= sorted@.map_values(|p: (i64, MergedLogEntry)| (p.0, (|e: MergedLogEntry| mentry_view(e))(p.1))));
        }
        let all = drop_ts(&sorted);
        let (entries, anchor) = page_entries(all, opts.skip, opts.max_count);
        Step::Done(Ok(MergedLog { entries, anchor }))
    }

    /// The commits of a submodule in `old..new` (for a commit that moved it).
    pub fn submodule_commits(&self, sub_path: &str, old: &str, new: &str, replies: &[Reply]) -> (r: Step<Vec<LogEntry>>)
        ensures
            step_view(r, |v: Vec<LogEntry>| entries_view(v@)) == then(
                run_git(replies_view(replies@), 0, path_join(self.dir(), sub_path@), crate::update::git_dir_args()),
                |o: Seq<char>| map_done(
                    run_git(replies_view(replies@), 1, path_join(self.dir(), sub_path@), seq!["log"@, "--pretty=format:%H%x00%h%x00%s%x00%an%x00%ai"@, old@ + ".."@ + new@]),
                    |t: Seq<char>| parse_log_spec(t),
                ),
            ),
    {
        let abs = crate::repo::join_any(self.workdir(), sub_path);
        let sub = Repo::at(abs.as_str());
        let a0 = vec![s("rev-parse"), s("--git-dir")];
        assert(strs(a0@) =~= crate::update::git_dir_args());
        match sub.git(replies, 0, a0) {
            Flow::Ask(q) => {
                return Step::Ask(q);
            },
            Flow::Fail(e) => {
                return Step::Done(Err(e));
            },
            Flow::Got(_) => {},
        }
        let mut range = crate::text::chars_of(old);
        crate::text::push_str(&mut range, "..");
        crate::text::push_str(&mut range, new);
        let rg = crate::text::string_of(&range);
        match sub.rev_range(rg.as_str(), replies, 1) {
            Flow::Ask(q) => Step::Ask(q),
            Flow::Fail(e) => Step::Done(Err(e)),
            Flow::Got(v) => Step::Done(Ok(v)),
        }
    }
}


// ───────────────────────── the multi-root graph ─────────────────────────

/// One root's input as read: (repo index, label, path, `git log` output).
pub type RootTextV = (usize, Seq<char>, Seq<char>, Seq<char>);

/// The inputs of the submodules `subs[i..]` (from reply `k`); one that cannot be opened or
/// read is left out (its index stays unused).
pub open spec fn topo_inputs_from(rs: Seq<ReplyV>, k: int, dir: Seq<char>, subs: Seq<SubmoduleV>, i: int, args: Seq<Seq<char>>) -> Outcome<Seq<RootTextV>>
    decreases subs.len() - i,
{
    if i < 0 || i >= subs.len() {
        Outcome::Done(Seq::empty())
    } else {
        let abs = path_join(dir, subs[i].path);
        match run_git(rs, k, abs, crate::update::git_dir_args()) {
            Outcome::Ask(q) => Outcome::Ask(q),
            Outcome::Fail(_) => topo_inputs_from(rs, k + 1, dir, subs, i + 1, args),
            Outcome::Done(_) => match run_git(rs, k + 1, abs, args) {
                Outcome::Ask(q) => Outcome::Ask(q),
                Outcome::Fail(_) => topo_inputs_from(rs, k + 2, dir, subs, i + 1, args),
                Outcome::Done(out) => map_done(topo_inputs_from(rs, k + 2, dir, subs, i + 1, args), |rest: Seq<RootTextV>|
                    seq![((i + 1) as usize, subs[i].path, abs, out)] + rest),
            },
        }
    }
}

/// The inputs of the multi-root graph: the main repository (index 0, label `主仓`), then
/// the initialised submodules that could be read, each with its `--date-order` log.
pub open spec fn topo_inputs_spec(rs: Seq<ReplyV>, dir: Seq<char>, o: LogOptsV) -> Outcome<Seq<RootTextV>> {
    let args = history_args(date_head(), o.skip + o.max_count, o, true);
    match list_subs_at(rs, 0, dir) {
        Outcome::Ask(q) => Outcome::Ask(q),
        Outcome::Fail(e) => Outcome::Fail(e),
        Outcome::Done((Err(e), _)) => Outcome::Fail(e),
        Outcome::Done((Ok(subs), k1)) => then(run_git(rs, k1, dir, args), |main: Seq<char>|
            map_done(topo_inputs_from(rs, k1 + 1, dir, live_subs(subs), 0, args), |rest: Seq<RootTextV>|
                seq![(0usize, "主仓"@, dir, main)] + rest)),
    }
}

/// `commits` are the commits of `git log` output `out` with their timestamps.
pub open spec fn topo_parsed(commits: Seq<(i64, RawCommit)>, out: Seq<char>) -> bool {
    &&& commits.len() == commit_records(out, 7).len()
    &&& forall|k: int| 0 <= k < commits.len() ==> {
        &&& raw_matches((#[trigger] commits[k]).1, commit_records(out, 7)[k])
        &&& commits[k].0 as int == ts_field(commit_records(out, 7)[k][6])
    }
}

/// The inputs `repos` are those read.
pub open spec fn inputs_agree(repos: Seq<RepoInput>, texts: Seq<RootTextV>) -> bool {
    &&& repos.len() == texts.len()
    &&& forall|i: int| 0 <= i < repos.len() ==> {
        &&& (#[trigger] repos[i]).index == texts[i].0
        &&& repos[i].label@ == texts[i].1
        &&& repos[i].path@ == texts[i].2
        &&& topo_parsed(repos[i].commits@, texts[i].3)
    }
}

/// `g` is the page `skip..skip+max_count` of the layout `full` of `repos`.
pub open spec fn paged_from(repos: Seq<RepoInput>, full: MergedGraphLog, skip: int, max_count: int, g: MergedGraphLog) -> bool {
    &&& multi_layout(repos, full)
    &&& g.roots@ == full.roots@
    &&& g.commits@ == window_spec(full.commits@, skip, max_count)
    &&& (g.anchor is None <==> (skip == 0 || skip > full.commits.len()))
    &&& (g.anchor is Some ==> g.anchor->0@ == full.commits@[skip - 1].entry.full_sha@)
}

pub open spec fn done_of<A>(o: Outcome<A>) -> A
    recommends
        o is Done,
{
    match o {
        Outcome::Done(a) => a,
        _ => arbitrary(),
    }
}

impl Repo {
    fn topo_inputs_from(&self, replies: &[Reply], k: usize, subs: &Vec<Submodule>, i: usize, args: &Vec<String>) -> (r: Flow<Vec<RepoInput>>)
        requires
            i <= subs.len(),
        ensures
            match r {
                Flow::Ask(q) => topo_inputs_from(replies_view(replies@), k as int, self.dir(), subs_view(subs@), i as int, strs(args@)) == Outcome::<Seq<RootTextV>>::Ask(q.view()),
                Flow::Fail(e) => topo_inputs_from(replies_view(replies@), k as int, self.dir(), subs_view(subs@), i as int, strs(args@)) == Outcome::<Seq<RootTextV>>::Fail(e.view()),
                Flow::Got(v) => topo_inputs_from(replies_view(replies@), k as int, self.dir(), subs_view(subs@), i as int, strs(args@)) is Done
                    && inputs_agree(v@, done_of(topo_inputs_from(replies_view(replies@), k as int, self.dir(), subs_view(subs@), i as int, strs(args@)))),
            },
        decreases subs.len() - i,
    {
        if i >= subs.len() {
            let v: Vec<RepoInput> = Vec::new();
            return Flow::Got(v);
        }
        assert(subs_view(subs@)[i as int].path == subs@[i as int].path@);
        let abs = crate::repo::join_any(self.workdir(), subs[i].path.as_str());
        let sub = Repo::at(abs.as_str());
        let a0 = vec![s("rev-parse"), s("--git-dir")];
        assert(strs(a0@) =~= crate::update::git_dir_args());
        match sub.git(replies, k, a0) {
            Flow::Ask(q) => {
                return Flow::Ask(q);
            },
            Flow::Fail(_) => {
                return self.topo_inputs_from(replies, k + 1, subs, i + 1, args);
            },
            Flow::Got(_) => {},
        }
        let out = match sub.git(replies, k + 1, crate::repo::copy_strings(args)) {
            Flow::Ask(q) => {
                return Flow::Ask(q);
            },
            Flow::Fail(_) => {
                return self.topo_inputs_from(replies, k + 2, subs, i + 1, args);
            },
            Flow::Got(o) => o,
        };
        let commits = crate::topology::parse_topo_raw_with_ts(out.as_str());
        let input = RepoInput { index: i + 1, label: subs[i].path.clone(), path: abs, commits };
        match self.topo_inputs_from(replies, k + 2, subs, i + 1, args) {
            Flow::Ask(q) => Flow::Ask(q),
            Flow::Fail(e) => Flow::Fail(e),
            Flow::Got(rest) => {
                let mut v: Vec<RepoInput> = Vec::new();
                v.push(input);
                let ghost rv = rest@;
                let mut rest = rest;
                v.append(&mut rest);
                assert(v@ =~= seq![input] + rv);
                let ghost t = done_of(topo_inputs_from(replies_view(replies@), k + 2, self.dir(), subs_view(subs@), i + 1, strs(args@)));
                let ghost whole = seq![((i + 1) as usize, subs@[i as int].path@, abs@, out@)] + t;
                assert(topo_parsed(input.commits@, out@));
                assert forall|j: int| 0 <= j < v@.len() implies {
                    &&& (#[trigger] v@[j]).index == whole[j].0
                    &&& v@[j].label@ == whole[j].1
                    &&& v@[j].path@ == whole[j].2
                    &&& topo_parsed(v@[j].commits@, whole[j].3)
                } by {
                    if j > 0 {
                        assert(v@[j] == rv[j - 1]);
                        assert(whole[j] == t[j - 1]);
                    }
                }
                Flow::Got(v)
            },
        }
    }

    /// The lane graph of the main repository and its initialised submodules on shared
    /// lanes (the main repository is root 0), then the page `skip..skip+max_count` of it.
    pub fn log_multi_root_topology(&self, opts: &LogOptions, replies: &[Reply]) -> (r: Step<MergedGraphLog>)
        requires
            opts.skip + opts.max_count <= usize::MAX,
        ensures
            match r {
                Step::Ask(q) => topo_inputs_spec(replies_view(replies@), self.dir(), opts.view()) == Outcome::<Seq<RootTextV>>::Ask(q.view()),
                Step::Done(Err(e)) => topo_inputs_spec(replies_view(replies@), self.dir(), opts.view()) == Outcome::<Seq<RootTextV>>::Fail(e.view()),
                Step::Done(Ok(g)) => topo_inputs_spec(replies_view(replies@), self.dir(), opts.view()) is Done
                    && exists|repos: Seq<RepoInput>, full: MergedGraphLog|
                        #[trigger] inputs_agree(repos, done_of(topo_inputs_spec(replies_view(replies@), self.dir(), opts.view())))
                        && #[trigger] paged_from(repos, full, opts.skip as int, opts.max_count as int, g),
            },
    {
        let (subs, k1) = match self.list_subs_from(replies, 0) {
            Flow::Ask(q) => {
                return Step::Ask(q);
            },
            Flow::Fail(e) => {
                return Step::Done(Err(e));
            },
            Flow::Got((Err(e), _)) => {
                return Step::Done(Err(e));
            },
            Flow::Got((Ok(v), k1)) => (v, k1),
        };
        let live = live_filter(&subs);
        let args = ts_args_exec(opts, true);
        let main = match self.git(replies, k1, crate::repo::copy_strings(&args)) {
            Flow::Ask(q) => {
                return Step::Ask(q);
            },
            Flow::Fail(e) => {
                return Step::Done(Err(e));
            },
            Flow::Got(o) => o,
        };
        let rest = match self.topo_inputs_from(replies, k1 + 1, &live, 0, &args) {
            Flow::Ask(q) => {
                return Step::Ask(q);
            },
            Flow::Fail(e) => {
                return Step::Done(Err(e));
            },
            Flow::Got(v) => v,
        };
        let first = RepoInput {
            index: 0,
            label: s("主仓"),
            path: self.workdir().clone(),
            commits: crate::topology::parse_topo_raw_with_ts(main.as_str()),
        };
        let mut repos: Vec<RepoInput> = Vec::new();
        repos.push(first);
        let ghost rv = rest@;
        let mut rest = rest;
        repos.append(&mut rest);
        let ghost t = done_of(topo_inputs_from(replies_view(replies@), k1 + 1, self.dir(), subs_view(live@), 0, strs(args@)));
        let ghost whole = seq![(0usize, "主仓"@, self.dir(), main@)] + t;
        assert(repos@ =~= seq![first] + rv);
        assert forall|j: int| 0 <= j < repos@.len() implies {
            &&& (#[trigger] repos@[j]).index == whole[j].0
            &&& repos@[j].label@ == whole[j].1
            &&& repos@[j].path@ == whole[j].2
            &&& topo_parsed(repos@[j].commits@, whole[j].3)
        } by {
            if j > 0 {
                assert(repos@[j] == rv[j - 1]);
                assert(whole[j] == t[j - 1]);
            }
        }
        assert(inputs_agree(repos@, whole));
        let graph = crate::topology::compute_multi_root_topology(repos.as_slice());
        let ghost full = graph;
        let MergedGraphLog { roots, commits, anchor: _ } = graph;
        let ghost cv = commits@;
        let (window, anchor) = crate::log::split_window(commits, opts.skip, opts.max_count, |c: &crate::topology::MergedGraphCommit| -> (r: &str)
            ensures
                r@ == c.entry.full_sha@,
        { c.entry.full_sha.as_str() });
        let g = MergedGraphLog { roots, commits: window, anchor };
        assert(paged_from(repos@, full, opts.skip as int, opts.max_count as int, g));
        assert(topo_inputs_spec(replies_view(replies@), self.dir(), opts.view()) == Outcome::<Seq<RootTextV>>::Done(whole));
        assert(inputs_agree(repos@, done_of(topo_inputs_spec(replies_view(replies@), self.dir(), opts.view()))));
        Step::Done(Ok(g))
    }
}

} // verus!
