//! Structured commit graph: `git log --parents` output turned into lanes and edges for
//! the front end to draw. No colours or coordinates here, only which lane each commit
//! sits in and where every active lane goes on the next row.
use vstd::prelude::*;
use crate::log::LogEntry;

verus! {

// ───────────────────────── types ─────────────────────────

/// A line of the graph: from a lane of this row to a lane of the next row.
#[derive(Debug, Clone, Copy, PartialEq, Eq, Structural)]
pub struct GraphEdge {
    pub from_lane: usize,
    pub to_lane: usize,
}

/// A commit of the graph with its lane and the edges that leave its row.
#[derive(Debug, Clone)]
pub struct GraphCommit {
    pub entry: LogEntry,
    /// Full SHAs of the parents, first parent first.
    pub parents: Vec<String>,
    pub lane: usize,
    /// One edge per lane that is active on this row.
    pub edges: Vec<GraphEdge>,
}

/// One parsed line of `git log --parents`.
#[derive(Debug, Clone)]
pub struct RawCommit {
    pub full_sha: String,
    pub parents: Vec<String>,
    pub short_sha: String,
    pub subject: String,
    pub author: String,
    pub date: String,
}

/// What the lane layout reads of a commit: its SHA and its parents.
pub struct RawV {
    pub sha: Seq<char>,
    pub parents: Seq<Seq<char>>,
}

pub open spec fn strs(v: Seq<String>) -> Seq<Seq<char>> {
    v.map_values(|s: String| s@)
}

impl RawCommit {
    pub open spec fn view(&self) -> RawV {
        RawV { sha: self.full_sha@, parents: strs(self.parents@) }
    }
}

pub open spec fn raws_view(v: Seq<RawCommit>) -> Seq<RawV> {
    v.map_values(|r: RawCommit| r.view())
}

pub open spec fn lane_view(o: Option<String>) -> Option<Seq<char>> {
    match o {
        Some(s) => Some(s@),
        None => None,
    }
}

pub open spec fn lanes_view(v: Seq<Option<String>>) -> Seq<Option<Seq<char>>> {
    v.map_values(|o: Option<String>| lane_view(o))
}

pub open spec fn edges_view(v: Seq<GraphEdge>) -> Seq<(int, int)> {
    v.map_values(|e: GraphEdge| (e.from_lane as int, e.to_lane as int))
}

// ───────────────────────── lane layout (spec) ─────────────────────────

/// First index at or after `i` whose slot is `x`, or the length.
pub open spec fn first_eq(l: Seq<Option<Seq<char>>>, x: Option<Seq<char>>, i: int) -> int
    decreases l.len() - i,
{
    if i < 0 || i >= l.len() {
        l.len() as int
    } else if l[i] == x {
        i
    } else {
        first_eq(l, x, i + 1)
    }
}

/// First index at or after `i`, other than `skip`, whose slot is `x`, or the length.
pub open spec fn first_eq_except(l: Seq<Option<Seq<char>>>, x: Option<Seq<char>>, skip: int, i: int) -> int
    decreases l.len() - i,
{
    if i < 0 || i >= l.len() {
        l.len() as int
    } else if i != skip && l[i] == x {
        i
    } else {
        first_eq_except(l, x, skip, i + 1)
    }
}

/// A commit's lane: the first lane waiting for it; else the first empty lane; else a new lane.
pub open spec fn assign_spec(l: Seq<Option<Seq<char>>>, sha: Seq<char>) -> (Seq<Option<Seq<char>>>, int) {
    let i = first_eq(l, Some(sha), 0);
    if i < l.len() {
        (l, i)
    } else {
        let e = first_eq(l, None, 0);
        if e < l.len() {
            (l.update(e, Some(sha)), e)
        } else {
            (l.push(Some(sha)), l.len() as int)
        }
    }
}

/// Lanes after the commit's lane that also wait for it are closed (children join leftmost).
pub open spec fn clear_spec(l: Seq<Option<Seq<char>>>, sha: Seq<char>, cl: int) -> Seq<Option<Seq<char>>> {
    Seq::new(l.len(), |i: int| if i > cl && l[i] == Some(sha) { None } else { l[i] })
}

/// A merge parent takes over a lane already waiting for it (closing it), else the first
/// empty lane, else a new lane.
pub open spec fn place_spec(l: Seq<Option<Seq<char>>>, p: Seq<char>) -> Seq<Option<Seq<char>>> {
    let i = first_eq(l, Some(p), 0);
    if i < l.len() {
        l.update(i, None)
    } else {
        let e = first_eq(l, None, 0);
        if e < l.len() {
            l.update(e, Some(p))
        } else {
            l.push(Some(p))
        }
    }
}

/// Places the parents `ps[1..n]` in order.
pub open spec fn place_all(l: Seq<Option<Seq<char>>>, ps: Seq<Seq<char>>, n: int) -> Seq<Option<Seq<char>>>
    decreases n,
{
    if n <= 1 {
        l
    } else {
        place_spec(place_all(l, ps, n - 1), ps[n - 1])
    }
}

/// The lanes once the commit's parents took over: a root closes its lane, the first
/// parent continues it, the other parents are placed.
pub open spec fn succeed_spec(l: Seq<Option<Seq<char>>>, cl: int, parents: Seq<Seq<char>>) -> Seq<Option<Seq<char>>> {
    if parents.len() == 0 {
        l.update(cl, None)
    } else {
        place_all(l.update(cl, Some(parents[0])), parents, parents.len() as int)
    }
}

/// Where merge parent `p` went, other than the commit's own lane.
pub open spec fn fork_target(after: Seq<Option<Seq<char>>>, p: Seq<char>, cl: int) -> int {
    first_eq_except(after, Some(p), cl, 0)
}

pub open spec fn is_fork(after: Seq<Option<Seq<char>>>, parents: Seq<Seq<char>>, cl: int, to: int) -> bool {
    exists|k: int| 1 <= k < parents.len() && #[trigger] fork_target(after, parents[k], cl) == to
}

/// The lanes the commit's own lane leads to: itself when it has a parent, and each lane
/// a merge parent went to.
pub open spec fn keeps(after: Seq<Option<Seq<char>>>, parents: Seq<Seq<char>>, cl: int, to: int) -> bool {
    (to == cl && parents.len() > 0) || is_fork(after, parents, cl, to)
}

/// The commit lane's edges to lanes `< n`, by increasing target.
pub open spec fn commit_group(after: Seq<Option<Seq<char>>>, parents: Seq<Seq<char>>, cl: int, n: int) -> Seq<(int, int)>
    decreases n,
{
    if n <= 0 {
        Seq::empty()
    } else {
        commit_group(after, parents, cl, n - 1) + if keeps(after, parents, cl, n - 1) {
            seq![(cl, n - 1)]
        } else {
            Seq::empty()
        }
    }
}

/// Where a lane that waits for `expected` goes: the same lane if it still waits there,
/// else the first lane that does, else into the commit (a merge).
pub open spec fn pass_target(after: Seq<Option<Seq<char>>>, expected: Seq<char>, from: int, cl: int) -> int {
    if from < after.len() && after[from] == Some(expected) {
        from
    } else {
        let j = first_eq(after, Some(expected), 0);
        if j < after.len() {
            j
        } else {
            cl
        }
    }
}

/// The edges leaving lanes `< n`, sorted by source then target.
pub open spec fn edges_upto(before: Seq<Option<Seq<char>>>, after: Seq<Option<Seq<char>>>, cl: int, parents: Seq<Seq<char>>, n: int) -> Seq<(int, int)>
    decreases n,
{
    if n <= 0 {
        Seq::empty()
    } else {
        let prev = edges_upto(before, after, cl, parents, n - 1);
        let from = n - 1;
        match before[from] {
            None => prev,
            Some(expected) => if from == cl {
                prev + commit_group(after, parents, cl, after.len() as int)
            } else {
                prev + seq![(from, pass_target(after, expected, from, cl))]
            },
        }
    }
}

pub open spec fn edges_spec(before: Seq<Option<Seq<char>>>, after: Seq<Option<Seq<char>>>, cl: int, parents: Seq<Seq<char>>) -> Seq<(int, int)> {
    edges_upto(before, after, cl, parents, before.len() as int)
}

/// The lane of a commit laid out on lanes `l`.
pub open spec fn row_lane(l: Seq<Option<Seq<char>>>, r: RawV) -> int {
    assign_spec(l, r.sha).1
}

/// The lanes on the commit's row (before its parents take over).
pub open spec fn row_before(l: Seq<Option<Seq<char>>>, r: RawV) -> Seq<Option<Seq<char>>> {
    assign_spec(l, r.sha).0
}

/// The lanes for the next row.
pub open spec fn row_after(l: Seq<Option<Seq<char>>>, r: RawV) -> Seq<Option<Seq<char>>> {
    let cl = row_lane(l, r);
    succeed_spec(clear_spec(row_before(l, r), r.sha, cl), cl, r.parents)
}

pub open spec fn row_edges(l: Seq<Option<Seq<char>>>, r: RawV) -> Seq<(int, int)> {
    edges_spec(row_before(l, r), row_after(l, r), row_lane(l, r), r.parents)
}

/// The lanes after the first `n` commits.
pub open spec fn topo_lanes(rs: Seq<RawV>, n: int) -> Seq<Option<Seq<char>>>
    decreases n,
{
    if n <= 0 {
        Seq::empty()
    } else {
        row_after(topo_lanes(rs, n - 1), rs[n - 1])
    }
}

// ───────────────────────── lane layout (exec) ─────────────────────────

fn find_sha(lanes: &Vec<Option<String>>, sha: &String) -> (r: usize)
    ensures
        r as int == first_eq(lanes_view(lanes@), Some(sha@), 0),
        r <= lanes.len(),
{
    let ghost l = lanes_view(lanes@);
    let mut i: usize = 0;
    while i < lanes.len()
        invariant
            i <= lanes.len(),
            l == lanes_view(lanes@),
            first_eq(l, Some(sha@), 0) == first_eq(l, Some(sha@), i as int),
        decreases lanes.len() - i,
    {
        let hit = match &lanes[i] {
            Some(s) => *s == *sha,
            None => false,
        };
        assert(l[i as int] == lane_view(lanes@[i as int]));
        if hit {
            return i;
        }
        i = i + 1;
    }
    i
}

fn find_empty(lanes: &Vec<Option<String>>) -> (r: usize)
    ensures
        r as int == first_eq(lanes_view(lanes@), None, 0),
        r <= lanes.len(),
{
    let ghost l = lanes_view(lanes@);
    let mut i: usize = 0;
    while i < lanes.len()
        invariant
            i <= lanes.len(),
            l == lanes_view(lanes@),
            first_eq(l, None, 0) == first_eq(l, None, i as int),
        decreases lanes.len() - i,
    {
        assert(l[i as int] == lane_view(lanes@[i as int]));
        if lanes[i].is_none() {
            return i;
        }
        i = i + 1;
    }
    i
}

fn find_sha_except(lanes: &Vec<Option<String>>, sha: &String, skip: usize) -> (r: usize)
    ensures
        r as int == first_eq_except(lanes_view(lanes@), Some(sha@), skip as int, 0),
        r <= lanes.len(),
{
    let ghost l = lanes_view(lanes@);
    let mut i: usize = 0;
    while i < lanes.len()
        invariant
            i <= lanes.len(),
            l == lanes_view(lanes@),
            first_eq_except(l, Some(sha@), skip as int, 0) == first_eq_except(l, Some(sha@), skip as int, i as int),
        decreases lanes.len() - i,
    {
        let hit = match &lanes[i] {
            Some(s) => i != skip && *s == *sha,
            None => false,
        };
        assert(l[i as int] == lane_view(lanes@[i as int]));
        if hit {
            return i;
        }
        i = i + 1;
    }
    i
}

fn set_lane(lanes: &mut Vec<Option<String>>, i: usize, v: Option<String>)
    requires
        i < old(lanes).len(),
    ensures
        lanes_view(final(lanes)@) == lanes_view(old(lanes)@).update(i as int, lane_view(v)),
        final(lanes).len() == old(lanes).len(),
{
    lanes.set(i, v);
    assert(lanes_view(lanes@) =~= lanes_view(old(lanes)@).update(i as int, lane_view(v)));
}

fn push_lane(lanes: &mut Vec<Option<String>>, v: Option<String>)
    ensures
        lanes_view(final(lanes)@) == lanes_view(old(lanes)@).push(lane_view(v)),
        final(lanes).len() == old(lanes).len() + 1,
{
    lanes.push(v);
    assert(lanes_view(lanes@) =~= lanes_view(old(lanes)@).push(lane_view(v)));
}

/// Finds or opens the lane of `sha`.
fn assign_commit_lane(lanes: &mut Vec<Option<String>>, sha: &String) -> (r: usize)
    ensures
        (lanes_view(final(lanes)@), r as int) == assign_spec(lanes_view(old(lanes)@), sha@),
        r < final(lanes).len(),
{
    let i = find_sha(lanes, sha);
    if i < lanes.len() {
        return i;
    }
    let e = find_empty(lanes);
    if e < lanes.len() {
        set_lane(lanes, e, Some(sha.clone()));
        e
    } else {
        push_lane(lanes, Some(sha.clone()));
        lanes.len() - 1
    }
}

/// Closes the lanes after `commit_lane` that also wait for `sha`.
fn clear_duplicate_lanes(lanes: &mut Vec<Option<String>>, sha: &String, commit_lane: usize)
    requires
        commit_lane < old(lanes).len(),
    ensures
        lanes_view(final(lanes)@) == clear_spec(lanes_view(old(lanes)@), sha@, commit_lane as int),
        final(lanes).len() == old(lanes).len(),
{
    let ghost l0 = lanes_view(lanes@);
    let mut i: usize = commit_lane;
    while i < lanes.len()
        invariant
            lanes.len() == l0.len(),
            commit_lane <= i <= lanes.len(),
            forall|k: int| 0 <= k < l0.len() ==> #[trigger] lanes_view(lanes@)[k] == if k > commit_lane && k <= i && l0[k] == Some(sha@) { None } else { l0[k] },
        decreases lanes.len() - i,
    {
        let j = i + 1;
        if j < lanes.len() {
            let hit = match &lanes[j] {
                Some(s) => *s == *sha,
                None => false,
            };
            assert(lanes_view(lanes@)[j as int] == lane_view(lanes@[j as int]));
            if hit {
                set_lane(lanes, j, None);
            }
        }
        i = j;
    }
    assert(lanes_view(lanes@) =~= clear_spec(l0, sha@, commit_lane as int));
}

/// Places a merge parent: takes over the lane already waiting for it, or opens one.
fn place_additional_parent(lanes: &mut Vec<Option<String>>, parent: &String)
    ensures
        lanes_view(final(lanes)@) == place_spec(lanes_view(old(lanes)@), parent@),
{
    let i = find_sha(lanes, parent);
    if i < lanes.len() {
        set_lane(lanes, i, None);
        return;
    }
    let e = find_empty(lanes);
    if e < lanes.len() {
        set_lane(lanes, e, Some(parent.clone()));
    } else {
        push_lane(lanes, Some(parent.clone()));
    }
}

/// Lets the parents of the commit on lane `cl` take over the lanes.
fn succeed(lanes: &mut Vec<Option<String>>, cl: usize, parents: &Vec<String>)
    requires
        cl < old(lanes).len(),
    ensures
        lanes_view(final(lanes)@) == succeed_spec(lanes_view(old(lanes)@), cl as int, strs(parents@)),
{
    if parents.len() == 0 {
        set_lane(lanes, cl, None);
    } else {
        set_lane(lanes, cl, Some(parents[0].clone()));
        let ghost l1 = lanes_view(lanes@);
        let mut k: usize = 1;
        while k < parents.len()
            invariant
                1 <= k <= parents.len(),
                lanes_view(lanes@) == place_all(l1, strs(parents@), k as int),
            decreases parents.len() - k,
        {
            place_additional_parent(lanes, &parents[k]);
            k = k + 1;
        }
    }
}

fn clone_lanes(lanes: &Vec<Option<String>>) -> (r: Vec<Option<String>>)
    ensures
        lanes_view(r@) == lanes_view(lanes@),
        r.len() == lanes.len(),
{
    let mut r: Vec<Option<String>> = Vec::new();
    let mut i: usize = 0;
    while i < lanes.len()
        invariant
            i <= lanes.len(),
            r.len() == i,
            forall|k: int| 0 <= k < i ==> lane_view(#[trigger] r@[k]) == lane_view(lanes@[k]),
        decreases lanes.len() - i,
    {
        let v = match &lanes[i] {
            Some(s) => Some(s.clone()),
            None => None,
        };
        r.push(v);
        i = i + 1;
    }
    assert(lanes_view(r@) =~= lanes_view(lanes@));
    r
}

fn is_fork_exec(after: &Vec<Option<String>>, parents: &Vec<String>, cl: usize, to: usize) -> (r: bool)
    ensures
        r == is_fork(lanes_view(after@), strs(parents@), cl as int, to as int),
{
    let ghost a = lanes_view(after@);
    let ghost ps = strs(parents@);
    let mut k: usize = 1;
    while k < parents.len()
        invariant
            1 <= k,
            a == lanes_view(after@),
            ps == strs(parents@),
            forall|m: int| 1 <= m < k && m < ps.len() ==> #[trigger] fork_target(a, ps[m], cl as int) != to,
        decreases parents.len() - k,
    {
        let f = find_sha_except(after, &parents[k], cl);
        assert(ps[k as int] == parents@[k as int]@);
        if f == to {
            assert(fork_target(a, ps[k as int], cl as int) == to as int);
            return true;
        }
        k = k + 1;
    }
    false
}

fn push_edge(edges: &mut Vec<GraphEdge>, from: usize, to: usize)
    ensures
        edges_view(final(edges)@) == edges_view(old(edges)@).push((from as int, to as int)),
{
    edges.push(GraphEdge { from_lane: from, to_lane: to });
    assert(edges_view(edges@) =~= edges_view(old(edges)@).push((from as int, to as int)));
}

/// The edges of a row, from the lanes on the row (`before`) and on the next row (`after`):
/// one per active lane, sorted by source and then target.
fn build_edges(before: &Vec<Option<String>>, after: &Vec<Option<String>>, cl: usize, parents: &Vec<String>) -> (r: Vec<GraphEdge>)
    ensures
        edges_view(r@) == edges_spec(lanes_view(before@), lanes_view(after@), cl as int, strs(parents@)),
{
    let ghost b = lanes_view(before@);
    let ghost a = lanes_view(after@);
    let ghost ps = strs(parents@);
    let mut edges: Vec<GraphEdge> = Vec::new();
    let mut from: usize = 0;
    assert(edges_view(edges@) =~= edges_upto(b, a, cl as int, ps, 0));
    while from < before.len()
        invariant
            from <= before.len(),
            b == lanes_view(before@),
            a == lanes_view(after@),
            ps == strs(parents@),
            edges_view(edges@) == edges_upto(b, a, cl as int, ps, from as int),
        decreases before.len() - from,
    {
        assert(b[from as int] == lane_view(before@[from as int]));
        match &before[from] {
            None => {},
            Some(expected) => {
                if from == cl {
                    let ghost start = edges_view(edges@);
                    let mut to: usize = 0;
                    assert(start + commit_group(a, ps, cl as int, 0) =~= start);
                    while to < after.len()
                        invariant
                            to <= after.len(),
                            a == lanes_view(after@),
                            ps == strs(parents@),
                            edges_view(edges@) == start + commit_group(a, ps, cl as int, to as int),
                        decreases after.len() - to,
                    {
                        let keep = (to == cl && parents.len() > 0) || is_fork_exec(after, parents, cl, to);
                        if keep {
                            push_edge(&mut edges, cl, to);
                            assert(start + commit_group(a, ps, cl as int, to + 1) =~= (start + commit_group(a, ps, cl as int, to as int)).push((cl as int, to as int)));
                        } else {
                            assert(start + commit_group(a, ps, cl as int, to + 1) =~= start + commit_group(a, ps, cl as int, to as int));
                        }
                        to = to + 1;
                    }
                } else {
                    let same = from < after.len() && match &after[from] {
                        Some(s) => *s == *expected,
                        None => false,
                    };
                    proof {
                        if from < after.len() {
                            assert(a[from as int] == lane_view(after@[from as int]));
                        }
                    }
                    let to = if same {
                        from
                    } else {
                        let j = find_sha(after, expected);
                        if j < after.len() { j } else { cl }
                    };
                    push_edge(&mut edges, from, to);
                }
            },
        }
        from = from + 1;
    }
    edges
}

fn entry_of(raw: &RawCommit) -> (e: LogEntry)
    ensures
        e.full_sha == raw.full_sha,
        e.sha == raw.short_sha,
        e.message == raw.subject,
        e.author == raw.author,
        e.date == raw.date,
{
    LogEntry {
        full_sha: raw.full_sha.clone(),
        sha: raw.short_sha.clone(),
        message: raw.subject.clone(),
        author: raw.author.clone(),
        date: raw.date.clone(),
    }
}

fn clone_strings(v: &Vec<String>) -> (r: Vec<String>)
    ensures
        r@ == v@,
{
    let mut r: Vec<String> = Vec::new();
    let mut i: usize = 0;
    while i < v.len()
        invariant
            i <= v.len(),
            r@ == v@.take(i as int),
        decreases v.len() - i,
    {
        r.push(v[i].clone());
        assert(v@.take(i + 1) =~= v@.take(i as int).push(v@[i as int]));
        i = i + 1;
    }
    assert(v@.take(v.len() as int) =~= v@);
    r
}

/// The lane layout of a commit sequence (children before parents, as `--topo-order`
/// prints them): each commit's lane and the edges that leave its row.
pub fn compute_topology(raw_commits: &[RawCommit]) -> (r: Vec<GraphCommit>)
    ensures
        r.len() == raw_commits.len(),
        forall|k: int| 0 <= k < r.len() ==> {
            let rs = raws_view(raw_commits@);
            &&& (#[trigger] r@[k]).lane == row_lane(topo_lanes(rs, k), rs[k])
            &&& edges_view(r@[k].edges@) == row_edges(topo_lanes(rs, k), rs[k])
            &&& r@[k].parents@ == raw_commits@[k].parents@
            &&& r@[k].entry.full_sha == raw_commits@[k].full_sha
            &&& r@[k].entry.sha == raw_commits@[k].short_sha
            &&& r@[k].entry.message == raw_commits@[k].subject
            &&& r@[k].entry.author == raw_commits@[k].author
            &&& r@[k].entry.date == raw_commits@[k].date
        },
{
    let ghost rs = raws_view(raw_commits@);
    let mut lanes: Vec<Option<String>> = Vec::new();
    let mut result: Vec<GraphCommit> = Vec::new();
    let mut n: usize = 0;
    assert(lanes_view(lanes@) =~= topo_lanes(rs, 0));
    while n < raw_commits.len()
        invariant
            n <= raw_commits.len(),
            rs == raws_view(raw_commits@),
            result.len() == n,
            lanes_view(lanes@) == topo_lanes(rs, n as int),
            forall|k: int| 0 <= k < n ==> {
                &&& (#[trigger] result@[k]).lane == row_lane(topo_lanes(rs, k), rs[k])
                &&& edges_view(result@[k].edges@) == row_edges(topo_lanes(rs, k), rs[k])
                &&& result@[k].parents@ == raw_commits@[k].parents@
                &&& result@[k].entry.full_sha == raw_commits@[k].full_sha
                &&& result@[k].entry.sha == raw_commits@[k].short_sha
                &&& result@[k].entry.message == raw_commits@[k].subject
                &&& result@[k].entry.author == raw_commits@[k].author
                &&& result@[k].entry.date == raw_commits@[k].date
            },
        decreases raw_commits.len() - n,
    {
        let raw = &raw_commits[n];
        assert(rs[n as int] == raw.view());
        let cl = assign_commit_lane(&mut lanes, &raw.full_sha);
        let before = clone_lanes(&lanes);
        clear_duplicate_lanes(&mut lanes, &raw.full_sha, cl);
        succeed(&mut lanes, cl, &raw.parents);
        let edges = build_edges(&before, &lanes, cl, &raw.parents);
        let c = GraphCommit { entry: entry_of(raw), parents: clone_strings(&raw.parents), lane: cl, edges };
        result.push(c);
        n = n + 1;
    }
    result
}

// ───────────────────────── several roots on shared lanes ─────────────────────────

/// A commit of the merged multi-root graph.
#[derive(Debug, Clone)]
pub struct MergedGraphCommit {
    pub entry: LogEntry,
    /// Lane on the shared compact lanes.
    pub lane: usize,
    /// Edges of every lane active on this row, other roots' lanes passing through included.
    pub edges: Vec<GraphEdge>,
    /// Beside `edges`: the root (repo index) of the lane each edge starts on.
    pub edge_roots: Vec<usize>,
    /// 0 for the main repository, 1.. for submodules.
    pub repo_index: usize,
    pub repo_label: String,
    pub repo_path: String,
}

/// A root (the main repository or a submodule) of the merged graph.
#[derive(Debug, Clone)]
pub struct RootMeta {
    pub index: usize,
    pub label: String,
    pub path: String,
}

/// The merged multi-root graph: the selected roots and the merged commits.
#[derive(Debug, Clone)]
pub struct MergedGraphLog {
    pub roots: Vec<RootMeta>,
    pub commits: Vec<MergedGraphCommit>,
    /// When the commits are one page of a longer list: the full SHA of the item before the
    /// page (`None` for the first page).
    pub anchor: Option<String>,
}

/// One root's input: its repo index, label and path, and its commits in date order
/// (children before parents), each with its author timestamp.
#[derive(Debug, Clone)]
pub struct RepoInput {
    pub index: usize,
    pub label: String,
    pub path: String,
    pub commits: Vec<(i64, RawCommit)>,
}

/// The most lanes the merged graph opens; further branches share the rightmost lane.
pub const MAX_LANES: usize = 8;

/// Shared lanes: what each lane waits for, and which root it belongs to.
pub struct LaneState {
    pub lanes: Seq<Option<Seq<char>>>,
    pub roots: Seq<Option<usize>>,
}

pub open spec fn lane_start() -> LaneState {
    LaneState { lanes: Seq::empty(), roots: Seq::empty() }
}

/// Puts `sha` of root `ri` on a lane: the first one waiting for it, else an empty one,
/// else a new one while fewer than `MAX_LANES` exist, else the rightmost (overflow) lane.
pub open spec fn assign_capped(st: LaneState, sha: Seq<char>, ri: usize) -> (LaneState, int) {
    let l = st.lanes;
    let i = first_eq(l, Some(sha), 0);
    if i < l.len() {
        (LaneState { lanes: l, roots: st.roots.update(i, Some(ri)) }, i)
    } else {
        let e = first_eq(l, None, 0);
        if e < l.len() {
            (LaneState { lanes: l.update(e, Some(sha)), roots: st.roots.update(e, Some(ri)) }, e)
        } else if l.len() < MAX_LANES {
            (LaneState { lanes: l.push(Some(sha)), roots: st.roots.push(Some(ri)) }, l.len() as int)
        } else {
            (LaneState { lanes: l.update(MAX_LANES - 1, Some(sha)), roots: st.roots.update(MAX_LANES - 1, Some(ri)) }, MAX_LANES - 1)
        }
    }
}

/// Places merge parent `p` of root `ri`, with the same cap.
pub open spec fn place_capped(st: LaneState, p: Seq<char>, ri: usize) -> LaneState {
    let l = st.lanes;
    let i = first_eq(l, Some(p), 0);
    if i < l.len() {
        LaneState { lanes: l.update(i, None), roots: st.roots.update(i, None) }
    } else {
        let e = first_eq(l, None, 0);
        if e < l.len() {
            LaneState { lanes: l.update(e, Some(p)), roots: st.roots.update(e, Some(ri)) }
        } else if l.len() < MAX_LANES {
            LaneState { lanes: l.push(Some(p)), roots: st.roots.push(Some(ri)) }
        } else {
            LaneState { lanes: l.update(MAX_LANES - 1, Some(p)), roots: st.roots.update(MAX_LANES - 1, Some(ri)) }
        }
    }
}

pub open spec fn place_all_capped(st: LaneState, ps: Seq<Seq<char>>, n: int, ri: usize) -> LaneState
    decreases n,
{
    if n <= 1 {
        st
    } else {
        place_capped(place_all_capped(st, ps, n - 1, ri), ps[n - 1], ri)
    }
}

pub open spec fn clear_capped(st: LaneState, sha: Seq<char>, cl: int) -> LaneState {
    LaneState {
        lanes: clear_spec(st.lanes, sha, cl),
        roots: Seq::new(st.roots.len(), |i: int| if i > cl && i < st.lanes.len() && st.lanes[i] == Some(sha) { None } else { st.roots[i] }),
    }
}

pub open spec fn succeed_capped(st: LaneState, cl: int, parents: Seq<Seq<char>>, ri: usize) -> LaneState {
    if parents.len() == 0 {
        LaneState { lanes: st.lanes.update(cl, None), roots: st.roots.update(cl, None) }
    } else {
        place_all_capped(
            LaneState { lanes: st.lanes.update(cl, Some(parents[0])), roots: st.roots.update(cl, Some(ri)) },
            parents,
            parents.len() as int,
            ri,
        )
    }
}

pub open spec fn mrow_lane(st: LaneState, r: RawV, ri: usize) -> int {
    assign_capped(st, r.sha, ri).1
}

pub open spec fn mrow_before(st: LaneState, r: RawV, ri: usize) -> LaneState {
    assign_capped(st, r.sha, ri).0
}

pub open spec fn mrow_after(st: LaneState, r: RawV, ri: usize) -> LaneState {
    let cl = mrow_lane(st, r, ri);
    succeed_capped(clear_capped(mrow_before(st, r, ri), r.sha, cl), cl, r.parents, ri)
}

pub open spec fn mrow_edges(st: LaneState, r: RawV, ri: usize) -> Seq<(int, int)> {
    edges_spec(mrow_before(st, r, ri).lanes, mrow_after(st, r, ri).lanes, mrow_lane(st, r, ri), r.parents)
}

/// The root of an edge: the commit's own lane belongs to the commit's root, any other
/// lane to the root that owned it on this row.
pub open spec fn edge_root(e: (int, int), cl: int, roots: Seq<Option<usize>>, ri: usize) -> usize {
    if e.0 == cl {
        ri
    } else if 0 <= e.0 < roots.len() && roots[e.0] is Some {
        roots[e.0]->0
    } else {
        ri
    }
}

pub open spec fn mrow_edge_roots(st: LaneState, r: RawV, ri: usize) -> Seq<usize> {
    let cl = mrow_lane(st, r, ri);
    let roots = mrow_before(st, r, ri).roots;
    mrow_edges(st, r, ri).map_values(|e: (int, int)| edge_root(e, cl, roots, ri))
}

/// A merged commit stream: each commit with the index of its root.
pub open spec fn mlanes(rows: Seq<(RawV, usize)>, n: int) -> LaneState
    decreases n,
{
    if n <= 0 {
        lane_start()
    } else {
        mrow_after(mlanes(rows, n - 1), rows[n - 1].0, rows[n - 1].1)
    }
}

// ── merging the roots' date-ordered streams ──

/// The timestamps of each root's commits.
pub open spec fn repo_ts(repos: Seq<RepoInput>) -> Seq<Seq<i64>> {
    repos.map_values(|r: RepoInput| r.commits@.map_values(|c: (i64, RawCommit)| c.0))
}

pub open spec fn repo_idx(repos: Seq<RepoInput>) -> Seq<usize> {
    repos.map_values(|r: RepoInput| r.index)
}

/// Head of root `p` comes before head of root `q`: newer, or as new and a lower repo index.
pub open spec fn head_before(ts: Seq<Seq<i64>>, idx: Seq<usize>, ptrs: Seq<int>, p: int, q: int) -> bool {
    ts[p][ptrs[p]] > ts[q][ptrs[q]] || (ts[p][ptrs[p]] == ts[q][ptrs[q]] && idx[p] < idx[q])
}

/// The root whose head is taken next among roots `< n`: scanning in order, a later root
/// replaces the choice only when its head comes strictly before.
pub open spec fn best_head(ts: Seq<Seq<i64>>, idx: Seq<usize>, ptrs: Seq<int>, n: int) -> Option<int>
    decreases n,
{
    if n <= 0 {
        None
    } else {
        let b = best_head(ts, idx, ptrs, n - 1);
        let p = n - 1;
        if ptrs[p] >= ts[p].len() {
            b
        } else {
            match b {
                None => Some(p),
                Some(q) => if head_before(ts, idx, ptrs, p, q) { Some(p) } else { b },
            }
        }
    }
}

/// Commits not yet taken from roots `< n`.
pub open spec fn remaining(ts: Seq<Seq<i64>>, ptrs: Seq<int>, n: int) -> int
    decreases n,
{
    if n <= 0 {
        0
    } else {
        remaining(ts, ptrs, n - 1) + (ts[n - 1].len() - ptrs[n - 1])
    }
}

/// The merged order from read positions `ptrs`: `(root position, commit position)` pairs.
pub open spec fn merge_order(ts: Seq<Seq<i64>>, idx: Seq<usize>, ptrs: Seq<int>, fuel: nat) -> Seq<(int, int)>
    decreases fuel,
{
    if fuel == 0 {
        Seq::empty()
    } else {
        match best_head(ts, idx, ptrs, ts.len() as int) {
            None => Seq::empty(),
            Some(p) => seq![(p, ptrs[p])] + merge_order(ts, idx, ptrs.update(p, ptrs[p] + 1), (fuel - 1) as nat),
        }
    }
}

pub open spec fn zeros(n: nat) -> Seq<int> {
    Seq::new(n, |i: int| 0int)
}

pub open spec fn total(ts: Seq<Seq<i64>>) -> nat {
    remaining(ts, zeros(ts.len()), ts.len() as int) as nat
}

/// The date-ordered merge of all roots' commits.
pub open spec fn merged_order(repos: Seq<RepoInput>) -> Seq<(int, int)> {
    let ts = repo_ts(repos);
    merge_order(ts, repo_idx(repos), zeros(ts.len()), total(ts))
}

/// The rows of the merged stream: each commit with its root's repo index.
pub open spec fn merged_rows(repos: Seq<RepoInput>) -> Seq<(RawV, usize)> {
    merged_order(repos).map_values(|pq: (int, int)| (repos[pq.0].commits@[pq.1].1.view(), repos[pq.0].index))
}

proof fn lemma_remaining_step(ts: Seq<Seq<i64>>, ptrs: Seq<int>, p: int, n: int)
    requires
        0 <= p < ptrs.len(),
        ptrs.len() == ts.len(),
        0 <= n <= ts.len(),
    ensures
        remaining(ts, ptrs.update(p, ptrs[p] + 1), n) == remaining(ts, ptrs, n) - (if p < n { 1int } else { 0int }),
    decreases n,
{
    if n > 0 {
        lemma_remaining_step(ts, ptrs, p, n - 1);
    }
}

proof fn lemma_remaining_nonneg(ts: Seq<Seq<i64>>, ptrs: Seq<int>, n: int)
    requires
        ptrs.len() == ts.len(),
        0 <= n <= ts.len(),
        forall|i: int| 0 <= i < ts.len() ==> 0 <= #[trigger] ptrs[i] <= ts[i].len(),
    ensures
        remaining(ts, ptrs, n) >= 0,
        forall|i: int| 0 <= i < n && ptrs[i] < ts[i].len() ==> remaining(ts, ptrs, n) > 0,
    decreases n,
{
    if n > 0 {
        lemma_remaining_nonneg(ts, ptrs, n - 1);
    }
}

proof fn lemma_best_head(ts: Seq<Seq<i64>>, idx: Seq<usize>, ptrs: Seq<int>, n: int)
    requires
        0 <= n <= ts.len(),
    ensures
        match best_head(ts, idx, ptrs, n) {
            Some(p) => 0 <= p < n && ptrs[p] < ts[p].len(),
            None => forall|i: int| 0 <= i < n ==> ptrs[i] >= ts[i].len(),
        },
    decreases n,
{
    if n > 0 {
        lemma_best_head(ts, idx, ptrs, n - 1);
    }
}

/// The head that `best_head` picks comes first: no other root's head among the first `n`
/// comes strictly before it.
proof fn lemma_best_head_first(ts: Seq<Seq<i64>>, idx: Seq<usize>, ptrs: Seq<int>, n: int)
    requires
        0 <= n <= ts.len(),
        ptrs.len() == ts.len(),
    ensures
        best_head(ts, idx, ptrs, n) matches Some(p) ==> forall|q: int| 0 <= q < n && q != p && ptrs[q] < ts[q].len()
            ==> !head_before(ts, idx, ptrs, q, p),
    decreases n,
{
    if n > 0 {
        lemma_best_head_first(ts, idx, ptrs, n - 1);
        lemma_best_head(ts, idx, ptrs, n - 1);
        let q0 = n - 1;
        if ptrs[q0] < ts[q0].len() {
            match best_head(ts, idx, ptrs, n - 1) {
                None => {},
                Some(b0) => {
                    if head_before(ts, idx, ptrs, q0, b0) {
                        assert forall|r: int| 0 <= r < n && r != q0 && ptrs[r] < ts[r].len() implies !head_before(ts, idx, ptrs, r, q0) by {
                            if r != b0 {
                                assert(!head_before(ts, idx, ptrs, r, b0));
                            }
                        }
                    }
                },
            }
        }
    }
}

/// How many of the first `i` entries of a merged order come from root `p`.
pub open spec fn taken(order: Seq<(int, int)>, i: int, p: int) -> nat
    decreases i,
{
    if i <= 0 {
        0
    } else {
        taken(order, i - 1, p) + if order[i - 1].0 == p { 1nat } else { 0nat }
    }
}

proof fn lemma_taken_shift(h: (int, int), rest: Seq<(int, int)>, i: int, p: int)
    requires
        1 <= i <= rest.len() + 1,
    ensures
        taken(seq![h] + rest, i, p) == taken(rest, i - 1, p) + if h.0 == p { 1nat } else { 0nat },
    decreases i,
{
    assert((seq![h] + rest)[0] == h);
    assert(taken(seq![h] + rest, 0, p) == 0 && taken(rest, 0, p) == 0);
    if i > 1 {
        lemma_taken_shift(h, rest, i - 1, p);
        assert((seq![h] + rest)[i - 1] == rest[i - 2]);
    }
}

/// Entry `i` of `o` is the next unread commit of its root (read positions `ptrs` at the
/// start).
pub open spec fn next_of_root(ts: Seq<Seq<i64>>, ptrs: Seq<int>, o: Seq<(int, int)>, i: int) -> bool {
    &&& 0 <= o[i].0 < ts.len()
    &&& o[i].1 == ptrs[o[i].0] + taken(o, i, o[i].0)
    &&& o[i].1 < ts[o[i].0].len()
}

/// When entry `i` of `o` is taken, root `r`'s next unread commit (if any) does not come
/// strictly before it: it is not newer, nor as new with a lower repository index.
pub open spec fn no_newer_head(ts: Seq<Seq<i64>>, idx: Seq<usize>, ptrs: Seq<int>, o: Seq<(int, int)>, i: int, r: int) -> bool {
    let p = o[i].0;
    let hr = ptrs[r] + taken(o, i, r);
    r != p && hr < ts[r].len() ==> !(ts[r][hr] > ts[p][o[i].1] || (ts[r][hr] == ts[p][o[i].1] && idx[r] < idx[p]))
}

/// What `merge_order` takes from read positions `ptrs`: each entry is the next unread
/// commit of its root; no other root's unread head comes strictly before it; and with the
/// fuel of the commits left, it takes all of them.
proof fn lemma_merge_order(ts: Seq<Seq<i64>>, idx: Seq<usize>, ptrs: Seq<int>, fuel: nat)
    requires
        ptrs.len() == ts.len(),
        forall|i: int| 0 <= i < ts.len() ==> 0 <= #[trigger] ptrs[i] <= ts[i].len(),
    ensures
        fuel == remaining(ts, ptrs, ts.len() as int) ==> merge_order(ts, idx, ptrs, fuel).len() == fuel,
        forall|i: int| 0 <= i < merge_order(ts, idx, ptrs, fuel).len() ==> #[trigger] next_of_root(ts, ptrs, merge_order(ts, idx, ptrs, fuel), i),
        forall|i: int, r: int| 0 <= i < merge_order(ts, idx, ptrs, fuel).len() && 0 <= r < ts.len()
            ==> #[trigger] no_newer_head(ts, idx, ptrs, merge_order(ts, idx, ptrs, fuel), i, r),
    decreases fuel,
{
    let o = merge_order(ts, idx, ptrs, fuel);
    lemma_best_head(ts, idx, ptrs, ts.len() as int);
    if fuel > 0 {
        match best_head(ts, idx, ptrs, ts.len() as int) {
            None => {
                if fuel == remaining(ts, ptrs, ts.len() as int) {
                    lemma_remaining_zero(ts, ptrs, ts.len() as int);
                }
            },
            Some(p) => {
                let np = ptrs.update(p, ptrs[p] + 1);
                lemma_merge_order(ts, idx, np, (fuel - 1) as nat);
                lemma_remaining_step(ts, ptrs, p, ts.len() as int);
                lemma_best_head_first(ts, idx, ptrs, ts.len() as int);
                let rest = merge_order(ts, idx, np, (fuel - 1) as nat);
                assert(o == seq![(p, ptrs[p])] + rest);
                assert forall|i: int| 0 <= i < o.len() implies #[trigger] next_of_root(ts, ptrs, o, i) by {
                    if i > 0 {
                        lemma_taken_shift((p, ptrs[p]), rest, i, o[i].0);
                        assert(o[i] == rest[i - 1]);
                        assert(next_of_root(ts, np, rest, i - 1));
                        assert(np[o[i].0] == ptrs[o[i].0] + if o[i].0 == p { 1int } else { 0int });
                    } else {
                        assert(taken(o, 0, p) == 0);
                    }
                }
                assert forall|i: int, r: int| 0 <= i < o.len() && 0 <= r < ts.len() implies #[trigger] no_newer_head(ts, idx, ptrs, o, i, r) by {
                    if i > 0 {
                        lemma_taken_shift((p, ptrs[p]), rest, i, r);
                        lemma_taken_shift((p, ptrs[p]), rest, i, o[i].0);
                        assert(o[i] == rest[i - 1]);
                        assert(np[r] == ptrs[r] + if r == p { 1int } else { 0int });
                        assert(no_newer_head(ts, idx, np, rest, i - 1, r));
                    } else {
                        assert(taken(o, 0, r) == 0);
                        assert(o[0] == (p, ptrs[p]));
                        if r != p && ptrs[r] < ts[r].len() {
                            assert(!head_before(ts, idx, ptrs, r, p));
                        }
                    }
                }
            },
        }
    }
}

proof fn lemma_remaining_zero(ts: Seq<Seq<i64>>, ptrs: Seq<int>, n: int)
    requires
        0 <= n <= ts.len(),
        ptrs.len() == ts.len(),
        forall|i: int| 0 <= i < n ==> ptrs[i] >= ts[i].len(),
        forall|i: int| 0 <= i < ts.len() ==> 0 <= #[trigger] ptrs[i] <= ts[i].len(),
    ensures
        remaining(ts, ptrs, n) == 0,
    decreases n,
{
    if n > 0 {
        lemma_remaining_zero(ts, ptrs, n - 1);
    }
}

/// The merged history takes every commit of every root exactly once, each root's commits
/// in their own order (the `k`-th commit taken from a root is its `k`-th commit), and each
/// time the newest of the roots' next commits (on equal timestamps, the lower repository
/// index): no other root's next commit comes before it.
pub proof fn law_merged_order_takes_newest_head(repos: Seq<RepoInput>)
    ensures
        merged_order(repos).len() == total(repo_ts(repos)),
        forall|i: int| 0 <= i < merged_order(repos).len()
            ==> #[trigger] next_of_root(repo_ts(repos), zeros(repos.len()), merged_order(repos), i),
        forall|i: int, r: int| 0 <= i < merged_order(repos).len() && 0 <= r < repos.len()
            ==> #[trigger] no_newer_head(repo_ts(repos), repo_idx(repos), zeros(repos.len()), merged_order(repos), i, r),
        forall|p: int, k: int| 0 <= p < repos.len() && 0 <= k < #[trigger] repo_ts(repos)[p].len()
            ==> repo_ts(repos)[p][k] == (#[trigger] repos[p].commits@[k]).0,
{
    let ts = repo_ts(repos);
    let z = zeros(ts.len());
    assert forall|i: int| 0 <= i < ts.len() implies 0 <= #[trigger] z[i] <= ts[i].len() by {}
    lemma_remaining_nonneg(ts, z, ts.len() as int);
    lemma_merge_order(ts, repo_idx(repos), z, total(ts));
}

/// Picks the root whose head comes next.
fn pick_head(repos: &[RepoInput], ptrs: &Vec<usize>) -> (r: Option<usize>)
    requires
        ptrs.len() == repos.len(),
    ensures
        match r {
            Some(p) => best_head(repo_ts(repos@), repo_idx(repos@), ptrs@.map_values(|x: usize| x as int), repos.len() as int) == Some(p as int),
            None => best_head(repo_ts(repos@), repo_idx(repos@), ptrs@.map_values(|x: usize| x as int), repos.len() as int) is None,
        },
{
    let ghost ts = repo_ts(repos@);
    let ghost idx = repo_idx(repos@);
    let ghost pv = ptrs@.map_values(|x: usize| x as int);
    let mut best: Option<usize> = None;
    let mut pos: usize = 0;
    while pos < repos.len()
        invariant
            pos <= repos.len(),
            ptrs.len() == repos.len(),
            ts == repo_ts(repos@),
            idx == repo_idx(repos@),
            pv == ptrs@.map_values(|x: usize| x as int),
            match best {
                Some(b) => best_head(ts, idx, pv, pos as int) == Some(b as int) && b < pos && ptrs@[b as int] < repos@[b as int].commits@.len(),
                None => best_head(ts, idx, pv, pos as int) is None,
            },
        decreases repos.len() - pos,
    {
        let repo = &repos[pos];
        assert(ts[pos as int] == repo.commits@.map_values(|c: (i64, RawCommit)| c.0));
        assert(idx[pos as int] == repo.index);
        if ptrs[pos] < repo.commits.len() {
            let t = repo.commits[ptrs[pos]].0;
            match best {
                None => {
                    best = Some(pos);
                },
                Some(b) => {
                    let bt = repos[b].commits[ptrs[b]].0;
                    assert(ts[b as int] == repos@[b as int].commits@.map_values(|c: (i64, RawCommit)| c.0));
                    assert(idx[b as int] == repos@[b as int].index);
                    if t > bt || (t == bt && repo.index < repos[b].index) {
                        best = Some(pos);
                    }
                },
            }
        }
        pos = pos + 1;
    }
    best
}

/// Merges the roots' streams by timestamp, newest first (ties: lower repo index first),
/// always taking a root's head so that each root keeps its own order. Returns
/// `(root position, commit position)` pairs.
fn merge_by_ts(repos: &[RepoInput]) -> (out: Vec<(usize, usize)>)
    ensures
        out@.map_values(|pq: (usize, usize)| (pq.0 as int, pq.1 as int)) == merged_order(repos@),
        forall|k: int| 0 <= k < out@.len() ==> (#[trigger] out@[k]).0 < repos@.len() && out@[k].1 < repos@[out@[k].0 as int].commits@.len(),
{
    let ghost ts = repo_ts(repos@);
    let ghost idx = repo_idx(repos@);
    let mut ptrs: Vec<usize> = Vec::new();
    let mut i: usize = 0;
    while i < repos.len()
        invariant
            i <= repos.len(),
            ptrs@ == Seq::new(i as nat, |k: int| 0usize),
        decreases repos.len() - i,
    {
        ptrs.push(0);
        assert(ptrs@ =~= Seq::new((i + 1) as nat, |k: int| 0usize));
        i = i + 1;
    }
    assert(ptrs@.map_values(|x: usize| x as int) =~= zeros(ts.len()));
    let mut out: Vec<(usize, usize)> = Vec::new();
    let ghost all = merged_order(repos@);
    proof {
        lemma_remaining_nonneg(ts, zeros(ts.len()), ts.len() as int);
        assert(out@.map_values(|pq: (usize, usize)| (pq.0 as int, pq.1 as int)) + merge_order(ts, idx, zeros(ts.len()), total(ts)) =~= merge_order(ts, idx, zeros(ts.len()), total(ts)));
    }
    loop
        invariant
            ptrs.len() == repos.len(),
            ts == repo_ts(repos@),
            idx == repo_idx(repos@),
            ts.len() == repos.len(),
            forall|j: int| 0 <= j < ts.len() ==> #[trigger] ts[j].len() == repos@[j].commits@.len(),
            forall|j: int| 0 <= j < ptrs.len() ==> #[trigger] ptrs@[j] <= repos@[j].commits@.len(),
            all == merged_order(repos@),
            all == out@.map_values(|pq: (usize, usize)| (pq.0 as int, pq.1 as int)) + merge_order(ts, idx, ptrs@.map_values(|x: usize| x as int), remaining(ts, ptrs@.map_values(|x: usize| x as int), ts.len() as int) as nat),
            remaining(ts, ptrs@.map_values(|x: usize| x as int), ts.len() as int) >= 0,
            forall|k: int| 0 <= k < out@.len() ==> (#[trigger] out@[k]).0 < repos@.len() && out@[k].1 < repos@[out@[k].0 as int].commits@.len(),
        decreases remaining(ts, ptrs@.map_values(|x: usize| x as int), ts.len() as int),
    {
        let ghost pv = ptrs@.map_values(|x: usize| x as int);
        let ghost rem = remaining(ts, pv, ts.len() as int);
        proof {
            lemma_best_head(ts, idx, pv, ts.len() as int);
            lemma_remaining_nonneg(ts, pv, ts.len() as int);
        }
        match pick_head(repos, &ptrs) {
            None => {
                proof {
                    if rem > 0 {
                        assert(merge_order(ts, idx, pv, rem as nat) =~= Seq::<(int, int)>::empty());
                    } else {
                        assert(merge_order(ts, idx, pv, rem as nat) =~= Seq::<(int, int)>::empty());
                    }
                }
                assert(all =~= out@.map_values(|pq: (usize, usize)| (pq.0 as int, pq.1 as int)));
                return out;
            },
            Some(p) => {
                let ghost before = out@.map_values(|pq: (usize, usize)| (pq.0 as int, pq.1 as int));
                assert(rem > 0);
                assert(pv[p as int] < ts[p as int].len());
                assert(ts[p as int].len() == repos@[p as int].commits@.len());
                let q = ptrs[p];
                assert(q as int == pv[p as int]);
                let lim = repos[p].commits.len();
                assert(q < lim);
                out.push((p, q));
                ptrs.set(p, q + 1);
                proof {
                    assert(ptrs@.map_values(|x: usize| x as int) =~= pv.update(p as int, pv[p as int] + 1));
                    lemma_remaining_step(ts, pv, p as int, ts.len() as int);
                    assert(out@.map_values(|pq: (usize, usize)| (pq.0 as int, pq.1 as int)) =~= before.push((p as int, q as int)));
                    assert(merge_order(ts, idx, pv, rem as nat) == seq![(p as int, pv[p as int])] + merge_order(ts, idx, pv.update(p as int, pv[p as int] + 1), (rem - 1) as nat));
                    assert(before + merge_order(ts, idx, pv, rem as nat) =~= before.push((p as int, q as int)) + merge_order(ts, idx, pv.update(p as int, pv[p as int] + 1), (rem - 1) as nat));
                }
            },
        }
    }
}

fn find_sha_root(lanes: &Vec<Option<String>>, sha: &String) -> (r: usize)
    ensures
        r as int == first_eq(lanes_view(lanes@), Some(sha@), 0),
        r <= lanes.len(),
{
    find_sha(lanes, sha)
}

/// Puts `sha` of root `ri` on the capped shared lanes.
fn assign_lane(lanes: &mut Vec<Option<String>>, lane_root: &mut Vec<Option<usize>>, sha: &String, ri: usize) -> (r: usize)
    requires
        old(lanes).len() == old(lane_root).len(),
        old(lanes).len() <= MAX_LANES,
    ensures
        (LaneState { lanes: lanes_view(final(lanes)@), roots: final(lane_root)@ }, r as int) == assign_capped(LaneState { lanes: lanes_view(old(lanes)@), roots: old(lane_root)@ }, sha@, ri),
        final(lanes).len() == final(lane_root).len(),
        final(lanes).len() <= MAX_LANES,
        r < final(lanes).len(),
{
    let i = find_sha_root(lanes, sha);
    if i < lanes.len() {
        lane_root.set(i, Some(ri));
        return i;
    }
    let e = find_empty(lanes);
    if e < lanes.len() {
        set_lane(lanes, e, Some(sha.clone()));
        lane_root.set(e, Some(ri));
        return e;
    }
    if lanes.len() < MAX_LANES {
        push_lane(lanes, Some(sha.clone()));
        lane_root.push(Some(ri));
        return lanes.len() - 1;
    }
    let overflow = MAX_LANES - 1;
    set_lane(lanes, overflow, Some(sha.clone()));
    lane_root.set(overflow, Some(ri));
    overflow
}

/// Places merge parent `parent` of root `ri` on the capped shared lanes.
fn place_parent(lanes: &mut Vec<Option<String>>, lane_root: &mut Vec<Option<usize>>, parent: &String, ri: usize)
    requires
        old(lanes).len() == old(lane_root).len(),
        old(lanes).len() <= MAX_LANES,
    ensures
        (LaneState { lanes: lanes_view(final(lanes)@), roots: final(lane_root)@ }) == place_capped(LaneState { lanes: lanes_view(old(lanes)@), roots: old(lane_root)@ }, parent@, ri),
        final(lanes).len() == final(lane_root).len(),
        final(lanes).len() <= MAX_LANES,
{
    let i = find_sha_root(lanes, parent);
    if i < lanes.len() {
        set_lane(lanes, i, None);
        lane_root.set(i, None);
        return;
    }
    let e = find_empty(lanes);
    if e < lanes.len() {
        set_lane(lanes, e, Some(parent.clone()));
        lane_root.set(e, Some(ri));
        return;
    }
    if lanes.len() < MAX_LANES {
        push_lane(lanes, Some(parent.clone()));
        lane_root.push(Some(ri));
        return;
    }
    let overflow = MAX_LANES - 1;
    set_lane(lanes, overflow, Some(parent.clone()));
    lane_root.set(overflow, Some(ri));
}

/// Closes the lanes after `commit_lane` that also wait for `sha`, with their roots.
fn clear_duplicate_lanes_root(lanes: &mut Vec<Option<String>>, lane_root: &mut Vec<Option<usize>>, sha: &String, commit_lane: usize)
    requires
        old(lanes).len() == old(lane_root).len(),
        commit_lane < old(lanes).len(),
    ensures
        (LaneState { lanes: lanes_view(final(lanes)@), roots: final(lane_root)@ }) == clear_capped(LaneState { lanes: lanes_view(old(lanes)@), roots: old(lane_root)@ }, sha@, commit_lane as int),
        final(lanes).len() == old(lanes).len(),
        final(lane_root).len() == old(lane_root).len(),
{
    let ghost l0 = lanes_view(lanes@);
    let ghost r0 = lane_root@;
    let mut i: usize = commit_lane;
    while i < lanes.len()
        invariant
            lanes.len() == l0.len(),
            lane_root.len() == l0.len(),
            r0.len() == l0.len(),
            commit_lane <= i <= lanes.len(),
            forall|k: int| 0 <= k < l0.len() ==> #[trigger] lanes_view(lanes@)[k] == if k > commit_lane && k <= i && l0[k] == Some(sha@) { None } else { l0[k] },
            forall|k: int| 0 <= k < l0.len() ==> #[trigger] lane_root@[k] == if k > commit_lane && k <= i && l0[k] == Some(sha@) { None } else { r0[k] },
        decreases lanes.len() - i,
    {
        let j = i + 1;
        if j < lanes.len() {
            let hit = match &lanes[j] {
                Some(s) => *s == *sha,
                None => false,
            };
            assert(lanes_view(lanes@)[j as int] == lane_view(lanes@[j as int]));
            if hit {
                set_lane(lanes, j, None);
                lane_root.set(j, None);
            }
        }
        i = j;
    }
    assert(lanes_view(lanes@) =~= clear_spec(l0, sha@, commit_lane as int));
    assert(lane_root@ =~= clear_capped(LaneState { lanes: l0, roots: r0 }, sha@, commit_lane as int).roots);
}

fn succeed_root(lanes: &mut Vec<Option<String>>, lane_root: &mut Vec<Option<usize>>, cl: usize, parents: &Vec<String>, ri: usize)
    requires
        old(lanes).len() == old(lane_root).len(),
        old(lanes).len() <= MAX_LANES,
        cl < old(lanes).len(),
    ensures
        (LaneState { lanes: lanes_view(final(lanes)@), roots: final(lane_root)@ }) == succeed_capped(LaneState { lanes: lanes_view(old(lanes)@), roots: old(lane_root)@ }, cl as int, strs(parents@), ri),
        final(lanes).len() == final(lane_root).len(),
        final(lanes).len() <= MAX_LANES,
{
    if parents.len() == 0 {
        set_lane(lanes, cl, None);
        lane_root.set(cl, None);
    } else {
        set_lane(lanes, cl, Some(parents[0].clone()));
        lane_root.set(cl, Some(ri));
        let ghost s1 = LaneState { lanes: lanes_view(lanes@), roots: lane_root@ };
        let mut k: usize = 1;
        while k < parents.len()
            invariant
                1 <= k <= parents.len(),
                lanes.len() == lane_root.len(),
                lanes.len() <= MAX_LANES,
                (LaneState { lanes: lanes_view(lanes@), roots: lane_root@ }) == place_all_capped(s1, strs(parents@), k as int, ri),
            decreases parents.len() - k,
        {
            place_parent(lanes, lane_root, &parents[k], ri);
            k = k + 1;
        }
    }
}

fn edge_roots_of(edges: &Vec<GraphEdge>, cl: usize, roots_before: &Vec<Option<usize>>, ri: usize) -> (r: Vec<usize>)
    ensures
        r@ == edges_view(edges@).map_values(|e: (int, int)| edge_root(e, cl as int, roots_before@, ri)),
{
    let mut r: Vec<usize> = Vec::new();
    let mut i: usize = 0;
    while i < edges.len()
        invariant
            i <= edges.len(),
            r@ == edges_view(edges@).take(i as int).map_values(|e: (int, int)| edge_root(e, cl as int, roots_before@, ri)),
        decreases edges.len() - i,
    {
        let e = edges[i];
        let root = if e.from_lane == cl {
            ri
        } else if e.from_lane < roots_before.len() {
            match roots_before[e.from_lane] {
                Some(x) => x,
                None => ri,
            }
        } else {
            ri
        };
        r.push(root);
        assert(edges_view(edges@).take(i + 1) =~= edges_view(edges@).take(i as int).push((e.from_lane as int, e.to_lane as int)));
        assert(r@ =~= edges_view(edges@).take(i + 1).map_values(|e: (int, int)| edge_root(e, cl as int, roots_before@, ri)));
        i = i + 1;
    }
    assert(edges_view(edges@).take(edges.len() as int) =~= edges_view(edges@));
    r
}

/// The capped lanes stay within `MAX_LANES`, and both sequences keep the same length.
proof fn lemma_mlanes_bounded(rows: Seq<(RawV, usize)>, n: int)
    requires
        0 <= n <= rows.len(),
    ensures
        mlanes(rows, n).lanes.len() <= MAX_LANES,
        mlanes(rows, n).lanes.len() == mlanes(rows, n).roots.len(),
    decreases n,
{
    if n > 0 {
        lemma_mlanes_bounded(rows, n - 1);
        let st = mlanes(rows, n - 1);
        let r = rows[n - 1].0;
        let ri = rows[n - 1].1;
        lemma_first_eq_bounds(st.lanes, Some(r.sha), 0);
        lemma_first_eq_bounds(st.lanes, None, 0);
        let b = mrow_before(st, r, ri);
        let cl = mrow_lane(st, r, ri);
        let c = clear_capped(b, r.sha, cl);
        assert(b.lanes.len() <= MAX_LANES && b.lanes.len() == b.roots.len());
        assert(c.lanes.len() == b.lanes.len() && c.roots.len() == b.roots.len());
        if r.parents.len() > 0 {
            let s1 = LaneState { lanes: c.lanes.update(cl, Some(r.parents[0])), roots: c.roots.update(cl, Some(ri)) };
            lemma_place_all_bounded(s1, r.parents, r.parents.len() as int, ri);
        }
    }
}

proof fn lemma_place_all_bounded(st: LaneState, ps: Seq<Seq<char>>, n: int, ri: usize)
    requires
        st.lanes.len() <= MAX_LANES,
        st.lanes.len() == st.roots.len(),
    ensures
        place_all_capped(st, ps, n, ri).lanes.len() <= MAX_LANES,
        place_all_capped(st, ps, n, ri).lanes.len() == place_all_capped(st, ps, n, ri).roots.len(),
    decreases n,
{
    if n > 1 {
        lemma_place_all_bounded(st, ps, n - 1, ri);
        let prev = place_all_capped(st, ps, n - 1, ri);
        lemma_first_eq_bounds(prev.lanes, Some(ps[n - 1]), 0);
        lemma_first_eq_bounds(prev.lanes, None, 0);
    }
}

// ── where a commit's lane comes from ──

proof fn lemma_first_eq_first(l: Seq<Option<Seq<char>>>, x: Option<Seq<char>>, i: int)
    requires
        0 <= i <= l.len(),
    ensures
        forall|j: int| i <= j < first_eq(l, x, i) ==> l[j] != x,
    decreases l.len() - i,
{
    if i < l.len() {
        lemma_first_eq_first(l, x, i + 1);
    }
}

/// A commit goes to the leftmost lane a child reserved for it (one waiting for its SHA);
/// when none did, to the leftmost free lane; when none is free, to a new lane at the right.
pub proof fn law_row_lane_reserved_or_free(l: Seq<Option<Seq<char>>>, r: RawV)
    ensures
        0 <= row_lane(l, r) <= l.len(),
        (exists|j: int| 0 <= j < l.len() && l[j] == Some(r.sha)) ==> {
            &&& l[row_lane(l, r)] == Some(r.sha)
            &&& forall|j: int| 0 <= j < row_lane(l, r) ==> l[j] != Some(r.sha)
        },
        !(exists|j: int| 0 <= j < l.len() && l[j] == Some(r.sha)) && (exists|j: int| 0 <= j < l.len() && l[j] is None) ==> {
            &&& l[row_lane(l, r)] is None
            &&& forall|j: int| 0 <= j < row_lane(l, r) ==> l[j] is Some
        },
        !(exists|j: int| 0 <= j < l.len() && (l[j] == Some(r.sha) || l[j] is None)) ==> row_lane(l, r) == l.len(),
        row_before(l, r)[row_lane(l, r)] == Some(r.sha),
{
    lemma_first_eq_bounds(l, Some(r.sha), 0);
    lemma_first_eq_bounds(l, None, 0);
    lemma_first_eq_first(l, Some(r.sha), 0);
    lemma_first_eq_first(l, None, 0);
}

/// With the lane cap the same holds, except that once `MAX_LANES` lanes are taken and
/// none is reserved or free, the commit shares the rightmost lane.
pub proof fn law_capped_lane_reserved_or_free(st: LaneState, r: RawV, ri: usize)
    ensures
        0 <= mrow_lane(st, r, ri) <= st.lanes.len(),
        (exists|j: int| 0 <= j < st.lanes.len() && st.lanes[j] == Some(r.sha)) ==> {
            &&& st.lanes[mrow_lane(st, r, ri)] == Some(r.sha)
            &&& forall|j: int| 0 <= j < mrow_lane(st, r, ri) ==> st.lanes[j] != Some(r.sha)
        },
        !(exists|j: int| 0 <= j < st.lanes.len() && st.lanes[j] == Some(r.sha)) && (exists|j: int| 0 <= j < st.lanes.len() && st.lanes[j] is None) ==> {
            &&& st.lanes[mrow_lane(st, r, ri)] is None
            &&& forall|j: int| 0 <= j < mrow_lane(st, r, ri) ==> st.lanes[j] is Some
        },
        !(exists|j: int| 0 <= j < st.lanes.len() && (st.lanes[j] == Some(r.sha) || st.lanes[j] is None)) ==> mrow_lane(st, r, ri) == (if st.lanes.len() < MAX_LANES { st.lanes.len() as int } else { MAX_LANES - 1 }),
{
    let l = st.lanes;
    lemma_first_eq_bounds(l, Some(r.sha), 0);
    lemma_first_eq_bounds(l, None, 0);
    lemma_first_eq_first(l, Some(r.sha), 0);
    lemma_first_eq_first(l, None, 0);
}

// ── one root on few lanes: the capped layout is the plain one ──

proof fn lemma_place_grows(l: Seq<Option<Seq<char>>>, p: Seq<char>)
    ensures
        place_spec(l, p).len() == l.len() || place_spec(l, p).len() == l.len() + 1,
        forall|st: LaneState, ri: usize| st.lanes == l && #[trigger] place_spec(l, p).len() <= MAX_LANES
            ==> place_capped(st, p, ri).lanes == place_spec(l, p),
{
    lemma_first_eq_bounds(l, Some(p), 0);
    lemma_first_eq_bounds(l, None, 0);
}

proof fn lemma_place_all_grows(l: Seq<Option<Seq<char>>>, ps: Seq<Seq<char>>, n: int)
    ensures
        place_all(l, ps, n).len() >= l.len(),
        n > 1 ==> place_all(l, ps, n).len() >= place_all(l, ps, n - 1).len(),
    decreases n,
{
    if n > 1 {
        lemma_place_all_grows(l, ps, n - 1);
        lemma_place_grows(place_all(l, ps, n - 1), ps[n - 1]);
    }
}

proof fn lemma_place_all_uncapped(st: LaneState, ps: Seq<Seq<char>>, n: int, ri: usize)
    requires
        place_all(st.lanes, ps, n).len() <= MAX_LANES,
    ensures
        place_all_capped(st, ps, n, ri).lanes == place_all(st.lanes, ps, n),
    decreases n,
{
    if n > 1 {
        lemma_place_all_grows(st.lanes, ps, n);
        lemma_place_all_uncapped(st, ps, n - 1, ri);
        lemma_place_grows(place_all(st.lanes, ps, n - 1), ps[n - 1]);
    }
}

/// The lanes after a row are at least as many as on the row.
proof fn lemma_row_grows(l: Seq<Option<Seq<char>>>, r: RawV)
    ensures
        row_after(l, r).len() >= row_before(l, r).len(),
        row_before(l, r).len() >= l.len(),
{
    lemma_first_eq_bounds(l, Some(r.sha), 0);
    lemma_first_eq_bounds(l, None, 0);
    let b = row_before(l, r);
    let cl = row_lane(l, r);
    let c = clear_spec(b, r.sha, cl);
    if r.parents.len() > 0 {
        lemma_place_all_grows(c.update(cl, Some(r.parents[0])), r.parents, r.parents.len() as int);
    }
}

/// Every lane of `st` belongs to root `ri` or to none.
pub open spec fn roots_only(st: LaneState, ri: usize) -> bool {
    forall|j: int| 0 <= j < st.roots.len() ==> (#[trigger] st.roots[j]) is None || st.roots[j] == Some(ri)
}

proof fn lemma_place_all_roots(st: LaneState, ps: Seq<Seq<char>>, n: int, ri: usize)
    requires
        roots_only(st, ri),
        st.lanes.len() <= MAX_LANES,
        st.lanes.len() == st.roots.len(),
    ensures
        roots_only(place_all_capped(st, ps, n, ri), ri),
    decreases n,
{
    if n > 1 {
        lemma_place_all_roots(st, ps, n - 1, ri);
        lemma_place_all_bounded(st, ps, n - 1, ri);
        let prev = place_all_capped(st, ps, n - 1, ri);
        lemma_first_eq_bounds(prev.lanes, Some(ps[n - 1]), 0);
        lemma_first_eq_bounds(prev.lanes, None, 0);
        let next = place_all_capped(st, ps, n, ri);
        assert forall|j: int| 0 <= j < next.roots.len() implies (#[trigger] next.roots[j]) is None || next.roots[j] == Some(ri) by {
            if j < prev.roots.len() {
                assert(prev.roots[j] is None || prev.roots[j] == Some(ri));
            }
        }
    }
}

/// A row of root `ri` on lanes that stay within `MAX_LANES` is laid out as without the cap,
/// and its lanes keep belonging to `ri` alone.
proof fn lemma_mrow_uncapped(st: LaneState, r: RawV, ri: usize)
    requires
        row_after(st.lanes, r).len() <= MAX_LANES,
        roots_only(st, ri),
        st.lanes.len() == st.roots.len(),
    ensures
        mrow_lane(st, r, ri) == row_lane(st.lanes, r),
        mrow_after(st, r, ri).lanes.len() == mrow_after(st, r, ri).roots.len(),
        mrow_before(st, r, ri).lanes == row_before(st.lanes, r),
        mrow_after(st, r, ri).lanes == row_after(st.lanes, r),
        roots_only(mrow_before(st, r, ri), ri),
        roots_only(mrow_after(st, r, ri), ri),
{
    let l = st.lanes;
    lemma_row_grows(l, r);
    lemma_first_eq_bounds(l, Some(r.sha), 0);
    lemma_first_eq_bounds(l, None, 0);
    let b = mrow_before(st, r, ri);
    assert(b.lanes == row_before(l, r));
    let cl = mrow_lane(st, r, ri);
    assert(b.roots.len() == b.lanes.len() && 0 <= cl < b.lanes.len());
    assert forall|j: int| 0 <= j < b.roots.len() implies (#[trigger] b.roots[j]) is None || b.roots[j] == Some(ri) by {
        if j < st.roots.len() && j != cl {
            assert(st.roots[j] is None || st.roots[j] == Some(ri));
        }
    }
    let c = clear_capped(b, r.sha, cl);
    assert forall|j: int| 0 <= j < c.roots.len() implies (#[trigger] c.roots[j]) is None || c.roots[j] == Some(ri) by {
        assert(b.roots[j] is None || b.roots[j] == Some(ri));
    }
    if r.parents.len() > 0 {
        let s1 = LaneState { lanes: c.lanes.update(cl, Some(r.parents[0])), roots: c.roots.update(cl, Some(ri)) };
        assert forall|j: int| 0 <= j < s1.roots.len() implies (#[trigger] s1.roots[j]) is None || s1.roots[j] == Some(ri) by {
            if j != cl {
                assert(c.roots[j] is None || c.roots[j] == Some(ri));
            }
        }
        lemma_place_all_uncapped(s1, r.parents, r.parents.len() as int, ri);
        assert(s1.lanes.len() == s1.roots.len() && s1.lanes.len() <= MAX_LANES);
        lemma_place_all_roots(s1, r.parents, r.parents.len() as int, ri);
        lemma_place_all_bounded(s1, r.parents, r.parents.len() as int, ri);
    } else {
        let a = mrow_after(st, r, ri);
        assert forall|j: int| 0 <= j < a.roots.len() implies (#[trigger] a.roots[j]) is None || a.roots[j] == Some(ri) by {
            if j != cl {
                assert(c.roots[j] is None || c.roots[j] == Some(ri));
            }
        }
    }
}

/// The lanes of the merged stream of one root `ri`, on lanes that never pass `MAX_LANES`,
/// are those of the plain layout.
proof fn lemma_single_mlanes(rows: Seq<(RawV, usize)>, rs: Seq<RawV>, ri: usize, n: int)
    requires
        rows.len() == rs.len(),
        forall|k: int| 0 <= k < rows.len() ==> #[trigger] rows[k] == (rs[k], ri),
        forall|k: int| 0 <= k <= rs.len() ==> #[trigger] topo_lanes(rs, k).len() <= MAX_LANES,
        0 <= n <= rows.len(),
    ensures
        mlanes(rows, n).lanes == topo_lanes(rs, n),
        roots_only(mlanes(rows, n), ri),
    decreases n,
{
    lemma_mlanes_bounded(rows, n);
    if n > 0 {
        lemma_single_mlanes(rows, rs, ri, n - 1);
        lemma_mlanes_bounded(rows, n - 1);
        assert(rows[n - 1] == (rs[n - 1], ri));
        assert(topo_lanes(rs, n).len() <= MAX_LANES);
        lemma_mrow_uncapped(mlanes(rows, n - 1), rs[n - 1], ri);
    }
}

/// One root's commits are taken in their own order.
proof fn lemma_single_order(ts: Seq<Seq<i64>>, idx: Seq<usize>, j: int)
    requires
        ts.len() == 1,
        0 <= j <= ts[0].len(),
    ensures
        merge_order(ts, idx, seq![j], (ts[0].len() - j) as nat) == Seq::new((ts[0].len() - j) as nat, |x: int| (0int, j + x)),
    decreases ts[0].len() - j,
{
    assert(best_head(ts, idx, seq![j], 0) is None);
    if j < ts[0].len() {
        assert(best_head(ts, idx, seq![j], 1) == Some(0int));
        assert(seq![j].update(0, j + 1) =~= seq![j + 1]);
        lemma_single_order(ts, idx, j + 1);
        assert(merge_order(ts, idx, seq![j], (ts[0].len() - j) as nat) =~= Seq::new((ts[0].len() - j) as nat, |x: int| (0int, j + x)));
    } else {
        assert(merge_order(ts, idx, seq![j], 0) =~= Seq::new(0, |x: int| (0int, j + x)));
    }
}

/// What the lane layout reads of one root's commits.
pub open spec fn root_raws(repo: RepoInput) -> Seq<RawV> {
    repo.commits@.map_values(|c: (i64, RawCommit)| c.1.view())
}

/// One root alone, whose plain layout never holds more than `MAX_LANES` lanes, is laid
/// out as the single-repository graph lays it out: the same commits in the same order,
/// on the same lanes with the same edges, every edge belonging to that root.
pub proof fn law_single_root_is_plain_topology(repo: RepoInput, g: MergedGraphLog)
    requires
        multi_layout(seq![repo], g),
        forall|k: int| 0 <= k <= repo.commits@.len() ==> #[trigger] topo_lanes(root_raws(repo), k).len() <= MAX_LANES,
    ensures
        g.commits.len() == repo.commits.len(),
        forall|k: int| 0 <= k < g.commits.len() ==> {
            let rs = root_raws(repo);
            &&& (#[trigger] g.commits@[k]).lane == row_lane(topo_lanes(rs, k), rs[k])
            &&& edges_view(g.commits@[k].edges@) == row_edges(topo_lanes(rs, k), rs[k])
            &&& g.commits@[k].repo_index == repo.index
            &&& g.commits@[k].entry.full_sha == repo.commits@[k].1.full_sha
            &&& forall|j: int| 0 <= j < g.commits@[k].edge_roots.len() ==> #[trigger] g.commits@[k].edge_roots@[j] == repo.index
        },
{
    let repos = seq![repo];
    let ts = repo_ts(repos);
    let n = repo.commits@.len();
    assert(ts.len() == 1 && ts[0].len() == n);
    assert(zeros(1) =~= seq![0int]);
    assert(remaining(ts, zeros(1), 0) == 0);
    assert(total(ts) == n);
    lemma_single_order(ts, repo_idx(repos), 0);
    let order = merged_order(repos);
    assert(order =~= Seq::new(n, |x: int| (0int, 0 + x)));
    let rows = merged_rows(repos);
    let rs = root_raws(repo);
    assert forall|k: int| 0 <= k < rows.len() implies #[trigger] rows[k] == (rs[k], repo.index) by {
        assert(order[k] == (0int, k));
    }
    assert forall|k: int| 0 <= k < g.commits.len() implies {
        &&& (#[trigger] g.commits@[k]).lane == row_lane(topo_lanes(rs, k), rs[k])
        &&& edges_view(g.commits@[k].edges@) == row_edges(topo_lanes(rs, k), rs[k])
        &&& g.commits@[k].repo_index == repo.index
        &&& g.commits@[k].entry.full_sha == repo.commits@[k].1.full_sha
        &&& forall|j: int| 0 <= j < g.commits@[k].edge_roots.len() ==> #[trigger] g.commits@[k].edge_roots@[j] == repo.index
    } by {
        assert(order[k] == (0int, k));
        assert(rows[k] == (rs[k], repo.index));
        lemma_single_mlanes(rows, rs, repo.index, k);
        lemma_mlanes_bounded(rows, k);
        assert(topo_lanes(rs, k + 1).len() <= MAX_LANES);
        let st = mlanes(rows, k);
        lemma_mrow_uncapped(st, rs[k], repo.index);
        let b = mrow_before(st, rs[k], repo.index);
        let cl = mrow_lane(st, rs[k], repo.index);
        assert forall|j: int| 0 <= j < g.commits@[k].edge_roots.len() implies #[trigger] g.commits@[k].edge_roots@[j] == repo.index by {
            let e = mrow_edges(st, rs[k], repo.index)[j];
            if e.0 != cl && 0 <= e.0 < b.roots.len() && b.roots[e.0] is Some {
                assert(b.roots[e.0] is None || b.roots[e.0] == Some(repo.index));
            }
        }
    }
}

// ── the edges of a row ──

/// Edges in strictly increasing order by source lane, then target lane.
pub open spec fn lex_increasing(es: Seq<(int, int)>) -> bool {
    forall|i: int, j: int| 0 <= i < j < es.len() ==> (#[trigger] es[i]).0 < (#[trigger] es[j]).0 || (es[i].0 == es[j].0 && es[i].1 < es[j].1)
}

proof fn lemma_commit_group(after: Seq<Option<Seq<char>>>, parents: Seq<Seq<char>>, cl: int, n: int)
    ensures
        forall|i: int| 0 <= i < commit_group(after, parents, cl, n).len() ==> (#[trigger] commit_group(after, parents, cl, n)[i]).0 == cl
            && 0 <= commit_group(after, parents, cl, n)[i].1 < n,
        forall|i: int, j: int| 0 <= i < j < commit_group(after, parents, cl, n).len()
            ==> (#[trigger] commit_group(after, parents, cl, n)[i]).1 < (#[trigger] commit_group(after, parents, cl, n)[j]).1,
        commit_group(after, parents, cl, n).contains((cl, cl)) <==> (0 <= cl < n && keeps(after, parents, cl, cl)),
    decreases n,
{
    if n > 0 {
        lemma_commit_group(after, parents, cl, n - 1);
        let prev = commit_group(after, parents, cl, n - 1);
        let g = commit_group(after, parents, cl, n);
        if keeps(after, parents, cl, n - 1) {
            assert(g == prev + seq![(cl, n - 1)]);
            if g.contains((cl, cl)) && !(0 <= cl < n - 1 && keeps(after, parents, cl, cl)) {
                let w = choose|w: int| 0 <= w < g.len() && g[w] == (cl, cl);
                if w < prev.len() {
                    assert(prev[w] == (cl, cl));
                    assert(prev.contains((cl, cl)));
                }
            }
            if 0 <= cl < n && keeps(after, parents, cl, cl) {
                if cl == n - 1 {
                    assert(g[prev.len() as int] == (cl, cl));
                } else {
                    let w = choose|w: int| 0 <= w < prev.len() && prev[w] == (cl, cl);
                    assert(g[w] == (cl, cl));
                }
            }
        } else {
            assert(g =~= prev);
        }
    }
}

proof fn lemma_edges_upto_sorted(before: Seq<Option<Seq<char>>>, after: Seq<Option<Seq<char>>>, cl: int, parents: Seq<Seq<char>>, n: int)
    requires
        0 <= n <= before.len(),
    ensures
        lex_increasing(edges_upto(before, after, cl, parents, n)),
        forall|i: int| 0 <= i < edges_upto(before, after, cl, parents, n).len() ==> 0 <= (#[trigger] edges_upto(before, after, cl, parents, n)[i]).0 < n,
        edges_upto(before, after, cl, parents, n).contains((cl, cl))
            <==> (0 <= cl < n && before[cl] is Some && commit_group(after, parents, cl, after.len() as int).contains((cl, cl))),
    decreases n,
{
    if n > 0 {
        lemma_edges_upto_sorted(before, after, cl, parents, n - 1);
        let prev = edges_upto(before, after, cl, parents, n - 1);
        let cur = edges_upto(before, after, cl, parents, n);
        let from = n - 1;
        match before[from] {
            None => {},
            Some(expected) => {
                let tail = if from == cl {
                    commit_group(after, parents, cl, after.len() as int)
                } else {
                    seq![(from, pass_target(after, expected, from, cl))]
                };
                lemma_commit_group(after, parents, cl, after.len() as int);
                assert(cur == prev + tail);
                assert forall|i: int| 0 <= i < tail.len() implies (#[trigger] tail[i]).0 == from by {}
                assert forall|i: int, j: int| 0 <= i < j < cur.len() implies (#[trigger] cur[i]).0 < (#[trigger] cur[j]).0 || (cur[i].0 == cur[j].0 && cur[i].1 < cur[j].1) by {
                    if j < prev.len() {
                        assert(cur[i] == prev[i] && cur[j] == prev[j]);
                    } else if i < prev.len() {
                        assert(cur[i] == prev[i] && prev[i].0 < n - 1);
                        assert(cur[j] == tail[j - prev.len()]);
                    } else {
                        assert(cur[i] == tail[i - prev.len()] && cur[j] == tail[j - prev.len()]);
                    }
                }
                assert forall|i: int| 0 <= i < cur.len() implies 0 <= (#[trigger] cur[i]).0 < n by {
                    if i < prev.len() {
                        assert(cur[i] == prev[i]);
                    } else {
                        assert(cur[i] == tail[i - prev.len()]);
                    }
                }
                if cur.contains((cl, cl)) {
                    let w = choose|w: int| 0 <= w < cur.len() && cur[w] == (cl, cl);
                    if w < prev.len() {
                        assert(prev[w] == (cl, cl));
                        assert(prev.contains((cl, cl)));
                    } else {
                        assert(tail[w - prev.len()] == (cl, cl));
                        assert(tail.contains((cl, cl)));
                    }
                }
                if prev.contains((cl, cl)) {
                    let w = choose|w: int| 0 <= w < prev.len() && prev[w] == (cl, cl);
                    assert(cur[w] == (cl, cl));
                }
                if from == cl && tail.contains((cl, cl)) {
                    let w = choose|w: int| 0 <= w < tail.len() && tail[w] == (cl, cl);
                    assert(cur[prev.len() + w] == (cl, cl));
                }
            },
        }
    }
}

/// Each row's edges come in strictly increasing order, by source lane and then by target
/// lane (so no edge appears twice); and the commit's own lane goes straight on to the next
/// row exactly when the commit has a parent: a root commit ends its lane.
pub proof fn law_row_edges_sorted(l: Seq<Option<Seq<char>>>, r: RawV)
    ensures
        lex_increasing(row_edges(l, r)),
        r.parents.len() > 0 <==> row_edges(l, r).contains((row_lane(l, r), row_lane(l, r))),
{
    let b = row_before(l, r);
    let a = row_after(l, r);
    let cl = row_lane(l, r);
    lemma_first_eq_bounds(l, Some(r.sha), 0);
    lemma_first_eq_bounds(l, None, 0);
    lemma_row_grows(l, r);
    assert(0 <= cl < b.len() && b[cl] is Some);
    lemma_edges_upto_sorted(b, a, cl, r.parents, b.len() as int);
    lemma_commit_group(a, r.parents, cl, a.len() as int);
    if !(r.parents.len() > 0) {
        if is_fork(a, r.parents, cl, cl) {
            let k = choose|k: int| 1 <= k < r.parents.len() && #[trigger] fork_target(a, r.parents[k], cl) == cl;
        }
    }
}

/// Every edge leaves a lane of the row and reaches a lane of the next row or the commit's lane.
proof fn lemma_edges_bounded(before: Seq<Option<Seq<char>>>, after: Seq<Option<Seq<char>>>, cl: int, parents: Seq<Seq<char>>, n: int)
    requires
        0 <= n <= before.len(),
        0 <= cl < before.len(),
    ensures
        forall|k: int| 0 <= k < edges_upto(before, after, cl, parents, n).len() ==> {
            let e = #[trigger] edges_upto(before, after, cl, parents, n)[k];
            0 <= e.0 < before.len() && 0 <= e.1 && (e.1 < after.len() || e.1 == cl)
        },
    decreases n,
{
    if n > 0 {
        lemma_edges_bounded(before, after, cl, parents, n - 1);
        lemma_group_bounded(after, parents, cl, after.len() as int);
        let prev = edges_upto(before, after, cl, parents, n - 1);
        let cur = edges_upto(before, after, cl, parents, n);
        let from = n - 1;
        match before[from] {
            None => {},
            Some(expected) => {
                if from == cl {
                    let g = commit_group(after, parents, cl, after.len() as int);
                    assert forall|k: int| 0 <= k < cur.len() implies {
                        let e = #[trigger] cur[k];
                        0 <= e.0 < before.len() && 0 <= e.1 && (e.1 < after.len() || e.1 == cl)
                    } by {
                        if k < prev.len() {
                            assert(cur[k] == prev[k]);
                        } else {
                            assert(cur[k] == g[k - prev.len()]);
                        }
                    }
                } else {
                    let j = first_eq(after, Some(expected), 0);
                    lemma_first_eq_bounds(after, Some(expected), 0);
                    assert forall|k: int| 0 <= k < cur.len() implies {
                        let e = #[trigger] cur[k];
                        0 <= e.0 < before.len() && 0 <= e.1 && (e.1 < after.len() || e.1 == cl)
                    } by {
                        if k < prev.len() {
                            assert(cur[k] == prev[k]);
                        }
                    }
                }
            },
        }
    }
}

proof fn lemma_group_bounded(after: Seq<Option<Seq<char>>>, parents: Seq<Seq<char>>, cl: int, n: int)
    requires
        0 <= n,
    ensures
        forall|k: int| 0 <= k < commit_group(after, parents, cl, n).len() ==> {
            let e = #[trigger] commit_group(after, parents, cl, n)[k];
            e.0 == cl && 0 <= e.1 < n
        },
    decreases n,
{
    if n > 0 {
        lemma_group_bounded(after, parents, cl, n - 1);
        let prev = commit_group(after, parents, cl, n - 1);
        let cur = commit_group(after, parents, cl, n);
        assert forall|k: int| 0 <= k < cur.len() implies {
            let e = #[trigger] cur[k];
            e.0 == cl && 0 <= e.1 < n
        } by {
            if k < prev.len() {
                assert(cur[k] == prev[k]);
            }
        }
    }
}

proof fn lemma_first_eq_bounds(l: Seq<Option<Seq<char>>>, x: Option<Seq<char>>, i: int)
    requires
        0 <= i <= l.len(),
    ensures
        i <= first_eq(l, x, i) <= l.len(),
        first_eq(l, x, i) < l.len() ==> l[first_eq(l, x, i)] == x,
    decreases l.len() - i,
{
    if i < l.len() {
        lemma_first_eq_bounds(l, x, i + 1);
    }
}

/// `r` lays out `repos`: its roots are theirs, and each commit of the timestamp-merged stream
/// sits on the lane and carries the edges that the lane assignment gives it.
pub open spec fn multi_layout(repos: Seq<RepoInput>, r: MergedGraphLog) -> bool {
    &&& r.roots.len() == repos.len()
    &&& forall|i: int| 0 <= i < repos.len() ==> {
        &&& (#[trigger] r.roots@[i]).index == repos[i].index
        &&& r.roots@[i].label == repos[i].label
        &&& r.roots@[i].path == repos[i].path
    }
    &&& r.commits.len() == merged_order(repos).len()
    &&& forall|k: int| 0 <= k < r.commits.len() ==> {
        let rows = merged_rows(repos);
        let st = mlanes(rows, k);
        let row = rows[k];
        let pq = merged_order(repos)[k];
        let raw = repos[pq.0].commits@[pq.1].1;
        &&& (#[trigger] r.commits@[k]).lane == mrow_lane(st, row.0, row.1)
        &&& edges_view(r.commits@[k].edges@) == mrow_edges(st, row.0, row.1)
        &&& r.commits@[k].edge_roots@ == mrow_edge_roots(st, row.0, row.1)
        &&& r.commits@[k].repo_index == repos[pq.0].index
        &&& r.commits@[k].repo_label == repos[pq.0].label
        &&& r.commits@[k].repo_path == repos[pq.0].path
        &&& r.commits@[k].entry.full_sha == raw.full_sha
        &&& r.commits@[k].entry.sha == raw.short_sha
        &&& r.commits@[k].entry.message == raw.subject
        &&& r.commits@[k].entry.author == raw.author
        &&& r.commits@[k].entry.date == raw.date
    }
}

/// Lays out several roots on one set of compact shared lanes. The roots' commits are
/// merged by timestamp (each root keeps its own order), then lanes are assigned on the
/// merged stream, never more than `MAX_LANES` of them. Each edge records the root of the
/// lane it starts on.
pub fn compute_multi_root_topology(repos: &[RepoInput]) -> (r: MergedGraphLog)
    ensures
        multi_layout(repos@, r),
        r.anchor is None,
        r.roots.len() == repos.len(),
        forall|i: int| 0 <= i < repos.len() ==> {
            &&& (#[trigger] r.roots@[i]).index == repos@[i].index
            &&& r.roots@[i].label == repos@[i].label
            &&& r.roots@[i].path == repos@[i].path
        },
        r.commits.len() == merged_order(repos@).len(),
        forall|k: int| 0 <= k < r.commits.len() ==> {
            let rows = merged_rows(repos@);
            let st = mlanes(rows, k);
            let row = rows[k];
            let pq = merged_order(repos@)[k];
            let raw = repos@[pq.0].commits@[pq.1].1;
            &&& (#[trigger] r.commits@[k]).lane == mrow_lane(st, row.0, row.1)
            &&& edges_view(r.commits@[k].edges@) == mrow_edges(st, row.0, row.1)
            &&& r.commits@[k].edge_roots@ == mrow_edge_roots(st, row.0, row.1)
            &&& r.commits@[k].repo_index == repos@[pq.0].index
            &&& r.commits@[k].repo_label == repos@[pq.0].label
            &&& r.commits@[k].repo_path == repos@[pq.0].path
            &&& r.commits@[k].entry.full_sha == raw.full_sha
            &&& r.commits@[k].entry.sha == raw.short_sha
            &&& r.commits@[k].entry.message == raw.subject
            &&& r.commits@[k].entry.author == raw.author
            &&& r.commits@[k].entry.date == raw.date
        },
        // the graph is never wider than `MAX_LANES` lanes
        forall|k: int| 0 <= k < r.commits.len() ==> (#[trigger] r.commits@[k]).lane < MAX_LANES
            && r.commits@[k].edges.len() == r.commits@[k].edge_roots.len()
            && forall|j: int| 0 <= j < r.commits@[k].edges.len() ==> (#[trigger] r.commits@[k].edges@[j]).from_lane < MAX_LANES
                && r.commits@[k].edges@[j].to_lane < MAX_LANES,
{
    let mut roots: Vec<RootMeta> = Vec::new();
    let mut i: usize = 0;
    while i < repos.len()
        invariant
            i <= repos.len(),
            roots.len() == i,
            forall|j: int| 0 <= j < i ==> {
                &&& (#[trigger] roots@[j]).index == repos@[j].index
                &&& roots@[j].label == repos@[j].label
                &&& roots@[j].path == repos@[j].path
            },
        decreases repos.len() - i,
    {
        roots.push(RootMeta { index: repos[i].index, label: repos[i].label.clone(), path: repos[i].path.clone() });
        i = i + 1;
    }

    let merged = merge_by_ts(repos);
    let ghost order = merged_order(repos@);
    let ghost rows = merged_rows(repos@);
    assert(merged@.len() == order.len()) by {
        assert(merged@.map_values(|pq: (usize, usize)| (pq.0 as int, pq.1 as int)).len() == merged@.len());
    }
    let mut lanes: Vec<Option<String>> = Vec::new();
    let mut lane_root: Vec<Option<usize>> = Vec::new();
    let mut commits: Vec<MergedGraphCommit> = Vec::new();
    let mut n: usize = 0;
    assert(lanes_view(lanes@) =~= Seq::<Option<Seq<char>>>::empty());
    assert(lane_root@ =~= Seq::<Option<usize>>::empty());
    while n < merged.len()
        invariant
            n <= merged.len(),
            merged@.len() == order.len(),
            order == merged_order(repos@),
            rows == merged_rows(repos@),
            order == merged@.map_values(|pq: (usize, usize)| (pq.0 as int, pq.1 as int)),
            forall|k: int| 0 <= k < merged@.len() ==> (#[trigger] merged@[k]).0 < repos@.len() && merged@[k].1 < repos@[merged@[k].0 as int].commits@.len(),
            commits.len() == n,
            lanes.len() == lane_root.len(),
            lanes.len() <= MAX_LANES,
            (LaneState { lanes: lanes_view(lanes@), roots: lane_root@ }) == mlanes(rows, n as int),
            forall|k: int| 0 <= k < n ==> {
                let st = mlanes(rows, k);
                let row = rows[k];
                let pq = order[k];
                let raw = repos@[pq.0].commits@[pq.1].1;
                &&& (#[trigger] commits@[k]).lane == mrow_lane(st, row.0, row.1)
                &&& edges_view(commits@[k].edges@) == mrow_edges(st, row.0, row.1)
                &&& commits@[k].edge_roots@ == mrow_edge_roots(st, row.0, row.1)
                &&& commits@[k].repo_index == repos@[pq.0].index
                &&& commits@[k].repo_label == repos@[pq.0].label
                &&& commits@[k].repo_path == repos@[pq.0].path
                &&& commits@[k].entry.full_sha == raw.full_sha
                &&& commits@[k].entry.sha == raw.short_sha
                &&& commits@[k].entry.message == raw.subject
                &&& commits@[k].entry.author == raw.author
                &&& commits@[k].entry.date == raw.date
                &&& commits@[k].lane < MAX_LANES
                &&& commits@[k].edges.len() == commits@[k].edge_roots.len()
                &&& forall|j: int| 0 <= j < commits@[k].edges.len() ==> (#[trigger] commits@[k].edges@[j]).from_lane < MAX_LANES
                    && commits@[k].edges@[j].to_lane < MAX_LANES
            },
        decreases merged.len() - n,
    {
        let (pos, ci) = merged[n];
        assert(order[n as int] == (pos as int, ci as int));
        let repo = &repos[pos];
        let raw = &repo.commits[ci].1;
        let ri = repo.index;
        assert(rows[n as int] == (raw.view(), ri));
        let ghost st = mlanes(rows, n as int);
        let cl = assign_lane(&mut lanes, &mut lane_root, &raw.full_sha, ri);
        let before = clone_lanes(&lanes);
        let mut roots_before: Vec<Option<usize>> = Vec::new();
        let mut m: usize = 0;
        while m < lane_root.len()
            invariant
                m <= lane_root.len(),
                roots_before@ == lane_root@.take(m as int),
            decreases lane_root.len() - m,
        {
            roots_before.push(lane_root[m]);
            assert(lane_root@.take(m + 1) =~= lane_root@.take(m as int).push(lane_root@[m as int]));
            m = m + 1;
        }
        assert(roots_before@ =~= lane_root@);
        clear_duplicate_lanes_root(&mut lanes, &mut lane_root, &raw.full_sha, cl);
        succeed_root(&mut lanes, &mut lane_root, cl, &raw.parents, ri);
        let edges = build_edges(&before, &lanes, cl, &raw.parents);
        let edge_roots = edge_roots_of(&edges, cl, &roots_before, ri);
        proof {
            lemma_edges_bounded(lanes_view(before@), lanes_view(lanes@), cl as int, strs(raw.parents@), before.len() as int);
            assert forall|j: int| 0 <= j < edges.len() implies (#[trigger] edges@[j]).from_lane < MAX_LANES && edges@[j].to_lane < MAX_LANES by {
                assert(edges_view(edges@)[j] == (edges@[j].from_lane as int, edges@[j].to_lane as int));
            }
        }
        let c = MergedGraphCommit {
            entry: entry_of(raw),
            lane: cl,
            edges,
            edge_roots,
            repo_index: ri,
            repo_label: repo.label.clone(),
            repo_path: repo.path.clone(),
        };
        commits.push(c);
        n = n + 1;
    }
    MergedGraphLog { roots, commits, anchor: None }
}

// ───────────────────────── parsing `git log` output ─────────────────────────

/// The fields of a commit line: `\r`s at its end dropped, split at NUL.
pub open spec fn commit_fields(line: Seq<char>) -> Seq<Seq<char>> {
    crate::text::split_char(crate::text::trim_end_char(line, '\r'), '\0')
}

/// The parent list field: empty for a root commit, else SHAs separated by spaces.
pub open spec fn parents_field(f: Seq<char>) -> Seq<Seq<char>> {
    if f.len() == 0 {
        Seq::empty()
    } else {
        crate::text::split_char(f, ' ')
    }
}

/// The lines of `text` that have exactly `nf` fields, as their fields.
pub open spec fn commit_lines(ls: Seq<Seq<char>>, nf: nat, n: int) -> Seq<Seq<Seq<char>>>
    decreases n,
{
    if n <= 0 {
        Seq::empty()
    } else {
        commit_lines(ls, nf, n - 1) + if commit_fields(ls[n - 1]).len() == nf {
            seq![commit_fields(ls[n - 1])]
        } else {
            Seq::empty()
        }
    }
}

pub open spec fn commit_records(text: Seq<char>, nf: nat) -> Seq<Seq<Seq<char>>> {
    let ls = crate::text::lines(text);
    commit_lines(ls, nf, ls.len() as int)
}

/// A raw commit read from fields `%H %P %h %s %an %ar`.
pub open spec fn raw_matches(r: RawCommit, f: Seq<Seq<char>>) -> bool {
    &&& r.full_sha@ == f[0]
    &&& strs(r.parents@) == parents_field(f[1])
    &&& r.short_sha@ == f[2]
    &&& r.subject@ == f[3]
    &&& r.author@ == f[4]
    &&& r.date@ == f[5]
}

fn raw_of_fields(f: &Vec<Vec<char>>) -> (r: RawCommit)
    requires
        f.len() >= 6,
    ensures
        raw_matches(r, crate::text::views(f@)),
{
    let parents = if f[1].len() == 0 {
        Vec::new()
    } else {
        crate::text::strings_of(&crate::text::split_on(&f[1], ' '))
    };
    let r = RawCommit {
        full_sha: crate::text::string_of(&f[0]),
        parents,
        short_sha: crate::text::string_of(&f[2]),
        subject: crate::text::string_of(&f[3]),
        author: crate::text::string_of(&f[4]),
        date: crate::text::string_of(&f[5]),
    };
    proof {
        if f@[1]@.len() == 0 {
            assert(strs(r.parents@) =~= Seq::<Seq<char>>::empty());
        }
    }
    r
}

fn fields_of_line(line: &Vec<char>) -> (f: Vec<Vec<char>>)
    ensures
        crate::text::views(f@) == commit_fields(line@),
{
    let t = crate::text::trim_end_char_vec(line, '\r');
    crate::text::split_on(&t, '\0')
}

/// Parses `git log` lines of format `%H\0%P\0%h\0%s\0%an\0%ar`; other lines are skipped.
pub fn parse_topo_raw(output: &str) -> (r: Vec<RawCommit>)
    ensures
        r.len() == commit_records(output@, 6).len(),
        forall|k: int| 0 <= k < r.len() ==> raw_matches(#[trigger] r@[k], commit_records(output@, 6)[k]),
{
    let ls = crate::text::lines_of(&crate::text::chars_of(output));
    let ghost lv = crate::text::views(ls@);
    let mut r: Vec<RawCommit> = Vec::new();
    let mut i: usize = 0;
    while i < ls.len()
        invariant
            i <= ls.len(),
            lv == crate::text::views(ls@),
            lv == crate::text::lines(output@),
            r.len() == commit_lines(lv, 6, i as int).len(),
            forall|k: int| 0 <= k < r.len() ==> raw_matches(#[trigger] r@[k], commit_lines(lv, 6, i as int)[k]),
        decreases ls.len() - i,
    {
        let f = fields_of_line(&ls[i]);
        assert(lv[i as int] == ls@[i as int]@);
        let ghost prev = commit_lines(lv, 6, i as int);
        if f.len() == 6 {
            let c = raw_of_fields(&f);
            r.push(c);
            assert(commit_lines(lv, 6, i + 1) == prev.push(crate::text::views(f@)));
        } else {
            assert(commit_lines(lv, 6, i + 1) =~= prev);
        }
        i = i + 1;
    }
    r
}

/// The timestamp field `%at`: its value, or 0 where it does not parse.
pub open spec fn ts_field(f: Seq<char>) -> int {
    match crate::text::parse_i64(f) {
        Some(v) => v,
        None => 0,
    }
}

/// Parses `git log` lines of format `%H\0%P\0%h\0%s\0%an\0%ar\0%at` into commits with
/// their author timestamp; other lines are skipped.
pub fn parse_topo_raw_with_ts(output: &str) -> (r: Vec<(i64, RawCommit)>)
    ensures
        r.len() == commit_records(output@, 7).len(),
        forall|k: int| 0 <= k < r.len() ==> {
            &&& raw_matches((#[trigger] r@[k]).1, commit_records(output@, 7)[k])
            &&& r@[k].0 as int == ts_field(commit_records(output@, 7)[k][6])
        },
{
    let ls = crate::text::lines_of(&crate::text::chars_of(output));
    let ghost lv = crate::text::views(ls@);
    let mut r: Vec<(i64, RawCommit)> = Vec::new();
    let mut i: usize = 0;
    while i < ls.len()
        invariant
            i <= ls.len(),
            lv == crate::text::views(ls@),
            lv == crate::text::lines(output@),
            r.len() == commit_lines(lv, 7, i as int).len(),
            forall|k: int| 0 <= k < r.len() ==> {
                &&& raw_matches((#[trigger] r@[k]).1, commit_lines(lv, 7, i as int)[k])
                &&& r@[k].0 as int == ts_field(commit_lines(lv, 7, i as int)[k][6])
            },
        decreases ls.len() - i,
    {
        let f = fields_of_line(&ls[i]);
        assert(lv[i as int] == ls@[i as int]@);
        let ghost prev = commit_lines(lv, 7, i as int);
        if f.len() == 7 {
            let c = raw_of_fields(&f);
            let ts: i64 = match crate::text::parse_i64_chars(&f[6]) {
                Some(v) => v,
                None => 0,
            };
            assert(crate::text::views(f@)[6] == f@[6]@);
            r.push((ts, c));
            assert(commit_lines(lv, 7, i + 1) == prev.push(crate::text::views(f@)));
        } else {
            assert(commit_lines(lv, 7, i + 1) =~= prev);
        }
        i = i + 1;
    }
    r
}

// ───────────────────────── whole-result views ─────────────────────────

/// A raw commit in full: `(full_sha, parents, short_sha, subject, author, date)`.
pub open spec fn raw_full(r: RawCommit) -> (Seq<char>, Seq<Seq<char>>, Seq<char>, Seq<char>, Seq<char>, Seq<char>) {
    (r.full_sha@, strs(r.parents@), r.short_sha@, r.subject@, r.author@, r.date@)
}

pub open spec fn rawv_of(f: (Seq<char>, Seq<Seq<char>>, Seq<char>, Seq<char>, Seq<char>, Seq<char>)) -> RawV {
    RawV { sha: f.0, parents: f.1 }
}

/// A laid-out commit: `(lane, edges, parents, (full_sha, sha, message, author, date))`.
pub open spec fn graph_view(c: GraphCommit) -> (int, Seq<(int, int)>, Seq<Seq<char>>, (Seq<char>, Seq<char>, Seq<char>, Seq<char>, Seq<char>)) {
    (c.lane as int, edges_view(c.edges@), strs(c.parents@), crate::log::entry_view(c.entry))
}

pub open spec fn graphs_view(v: Seq<GraphCommit>) -> Seq<(int, Seq<(int, int)>, Seq<Seq<char>>, (Seq<char>, Seq<char>, Seq<char>, Seq<char>, Seq<char>))> {
    v.map_values(|c: GraphCommit| graph_view(c))
}

/// The layout of a commit sequence given in full.
pub open spec fn topology_spec(fs: Seq<(Seq<char>, Seq<Seq<char>>, Seq<char>, Seq<char>, Seq<char>, Seq<char>)>) -> Seq<(int, Seq<(int, int)>, Seq<Seq<char>>, (Seq<char>, Seq<char>, Seq<char>, Seq<char>, Seq<char>))> {
    let rs = fs.map_values(|f: (Seq<char>, Seq<Seq<char>>, Seq<char>, Seq<char>, Seq<char>, Seq<char>)| rawv_of(f));
    Seq::new(fs.len(), |k: int| (row_lane(topo_lanes(rs, k), rs[k]), row_edges(topo_lanes(rs, k), rs[k]), fs[k].1, (fs[k].0, fs[k].2, fs[k].3, fs[k].4, fs[k].5)))
}

/// `compute_topology`, stated over whole sequences.
pub fn layout(raw_commits: &[RawCommit]) -> (r: Vec<GraphCommit>)
    ensures
        graphs_view(r@) == topology_spec(raw_commits@.map_values(|x: RawCommit| raw_full(x))),
{
    let r = compute_topology(raw_commits);
    let ghost fs = raw_commits@.map_values(|x: RawCommit| raw_full(x));
    let ghost rs = fs.map_values(|f: (Seq<char>, Seq<Seq<char>>, Seq<char>, Seq<char>, Seq<char>, Seq<char>)| rawv_of(f));
    assert(rs =~= raws_view(raw_commits@));
    assert(graphs_view(r@) =~= topology_spec(fs));
    r
}

/// The raw commits of `git log` output of format `%H\0%P\0%h\0%s\0%an\0%ar`, in full.
pub open spec fn parse_topo_raw_spec(out: Seq<char>) -> Seq<(Seq<char>, Seq<Seq<char>>, Seq<char>, Seq<char>, Seq<char>, Seq<char>)> {
    commit_records(out, 6).map_values(|f: Seq<Seq<char>>| (f[0], parents_field(f[1]), f[2], f[3], f[4], f[5]))
}

/// `parse_topo_raw`, stated over whole sequences.
pub fn parse_topo_raw_full(output: &str) -> (r: Vec<RawCommit>)
    ensures
        r@.map_values(|x: RawCommit| raw_full(x)) == parse_topo_raw_spec(output@),
{
    let r = parse_topo_raw(output);
    assert(r@.map_values(|x: RawCommit| raw_full(x)) =~= parse_topo_raw_spec(output@));
    r
}

} // verus!
