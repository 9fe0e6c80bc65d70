//! Line-level three-way merge inside a conflict block, and the whole-file aligned
//! three-way diff behind the three-column merge editor.
//!
//! Base lines are the pivot: two longest common subsequences (ours/base and
//! theirs/base) give the lines all three sides keep ("anchors"), which cut the
//! block into segments. A segment whose three sides have the same length is
//! decided line by line; any other segment is decided as a whole, and stays a
//! conflict unless one side equals base or both sides agree.
use vstd::prelude::*;
use crate::text::{views, concat, lines_incl, lemma_concat_push, lemma_concat_append, lemma_concat_lines_incl};
use crate::lcs::{lcs_map, lcs_trace, line_eq, is_matching, lemma_trace_matching, lemma_trace_len};

verus! {

// ───────────────────────── results ─────────────────────────

/// One block of a line-level merge (adjacent blocks of the same kind are joined).
#[derive(Debug, PartialEq, Eq)]
pub enum Merge {
    /// Decided text: one side changed, both changed alike, or nothing changed.
    Resolved(String),
    /// Both sides changed differently; the three versions are kept for a person.
    Conflict { ours: String, base: String, theirs: String },
}

/// What a merge block says, as character sequences.
pub enum MergeV {
    Resolved(Seq<char>),
    Conflict(Seq<char>, Seq<char>, Seq<char>),
}

impl Merge {
    pub open spec fn view(&self) -> MergeV {
        match self {
            Merge::Resolved(t) => MergeV::Resolved(t@),
            Merge::Conflict { ours, base, theirs } => MergeV::Conflict(ours@, base@, theirs@),
        }
    }
}

pub open spec fn merge_views(v: Seq<Merge>) -> Seq<MergeV> {
    v.map_values(|m: Merge| m.view())
}

// ───────────────────────── accumulator (spec) ─────────────────────────

/// The merge accumulator: finished blocks, the pending resolved text, the pending conflict.
pub struct AccV {
    pub out: Seq<MergeV>,
    pub resolved: Seq<char>,
    pub co: Seq<char>,
    pub cp: Seq<char>,
    pub ct: Seq<char>,
    pub in_conflict: bool,
}

pub open spec fn acc_empty() -> AccV {
    AccV { out: Seq::empty(), resolved: Seq::empty(), co: Seq::empty(), cp: Seq::empty(), ct: Seq::empty(), in_conflict: false }
}

pub open spec fn acc_flush_resolved(a: AccV) -> AccV {
    if a.resolved.len() > 0 {
        AccV { out: a.out.push(MergeV::Resolved(a.resolved)), resolved: Seq::empty(), ..a }
    } else {
        a
    }
}

pub open spec fn acc_flush_conflict(a: AccV) -> AccV {
    if a.in_conflict {
        AccV {
            out: a.out.push(MergeV::Conflict(a.co, a.cp, a.ct)),
            co: Seq::empty(),
            cp: Seq::empty(),
            ct: Seq::empty(),
            in_conflict: false,
            ..a
        }
    } else {
        a
    }
}

/// Appends decided text (closing a pending conflict first).
pub open spec fn acc_push_resolved(a: AccV, t: Seq<char>) -> AccV {
    let b = acc_flush_conflict(a);
    AccV { resolved: b.resolved + t, ..b }
}

/// Appends a conflicting piece (closing pending resolved text first).
pub open spec fn acc_push_conflict(a: AccV, o: Seq<char>, p: Seq<char>, t: Seq<char>) -> AccV {
    let b = acc_flush_resolved(a);
    AccV { co: b.co + o, cp: b.cp + p, ct: b.ct + t, in_conflict: true, ..b }
}

pub open spec fn acc_finish(a: AccV) -> Seq<MergeV> {
    acc_flush_conflict(acc_flush_resolved(a)).out
}

/// The decision for one line of an equal-length segment.
pub open spec fn decide_line(a: AccV, o: Seq<char>, p: Seq<char>, t: Seq<char>) -> AccV {
    if o == p {
        acc_push_resolved(a, t)
    } else if t == p || o == t {
        acc_push_resolved(a, o)
    } else {
        acc_push_conflict(a, o, p, t)
    }
}

/// Decides the first `n` lines of an equal-length segment.
pub open spec fn decide_lines(a: AccV, oc: Seq<Seq<char>>, pc: Seq<Seq<char>>, tc: Seq<Seq<char>>, n: nat) -> AccV
    decreases n,
{
    if n == 0 {
        a
    } else {
        let b = decide_lines(a, oc, pc, tc, (n - 1) as nat);
        decide_line(b, oc[n - 1], pc[n - 1], tc[n - 1])
    }
}

/// Decides one segment between two anchors.
#[verifier::opaque]
pub open spec fn decide_segment(a: AccV, oc: Seq<Seq<char>>, pc: Seq<Seq<char>>, tc: Seq<Seq<char>>) -> AccV {
    if oc.len() == pc.len() && tc.len() == pc.len() {
        decide_lines(a, oc, pc, tc, pc.len())
    } else if oc == tc {
        acc_push_resolved(a, concat(oc))
    } else if oc == pc {
        acc_push_resolved(a, concat(tc))
    } else if tc == pc {
        acc_push_resolved(a, concat(oc))
    } else {
        acc_push_conflict(a, concat(oc), concat(pc), concat(tc))
    }
}

// ───────────────────────── anchors (spec) ─────────────────────────

/// The three-way anchors among the first `k` base lines: `(ours, base, theirs)` line indices
/// of base lines that both sides keep.
pub open spec fn anchors(am: Seq<Option<nat>>, bm: Seq<Option<nat>>, k: int) -> Seq<(int, int, int)>
    decreases k,
{
    if k <= 0 {
        Seq::empty()
    } else {
        anchors(am, bm, k - 1) + if am[k - 1] is Some && bm[k - 1] is Some {
            seq![(am[k - 1]->0 as int, k - 1, bm[k - 1]->0 as int)]
        } else {
            Seq::empty()
        }
    }
}

/// The anchors of a three-way merge of line sequences `o`, `p` (base), `t`.
pub open spec fn merge_anchors(o: Seq<Seq<char>>, p: Seq<Seq<char>>, t: Seq<Seq<char>>) -> Seq<(int, int, int)> {
    anchors(lcs_trace(o, p, 0, 0), lcs_trace(t, p, 0, 0), p.len() as int)
}

/// Start positions right after anchor `k - 1` (the origin for `k == 0`).
pub open spec fn after(anc: Seq<(int, int, int)>, k: int) -> (int, int, int) {
    if k <= 0 {
        (0, 0, 0)
    } else {
        (anc[k - 1].0 + 1, anc[k - 1].1 + 1, anc[k - 1].2 + 1)
    }
}

/// The merge accumulator after the segments before the first `k` anchors and those anchors.
pub open spec fn merge_walk(o: Seq<Seq<char>>, p: Seq<Seq<char>>, t: Seq<Seq<char>>, anc: Seq<(int, int, int)>, k: int) -> AccV
    decreases k,
{
    if k <= 0 {
        acc_empty()
    } else {
        let a = merge_walk(o, p, t, anc, k - 1);
        let s = after(anc, k - 1);
        let e = anc[k - 1];
        let b = decide_segment(a, o.subrange(s.0, e.0), p.subrange(s.1, e.1), t.subrange(s.2, e.2));
        acc_push_resolved(b, p[e.1])
    }
}

/// `merge3` on line sequences.
pub open spec fn merge3_lines(o: Seq<Seq<char>>, p: Seq<Seq<char>>, t: Seq<Seq<char>>) -> Seq<MergeV> {
    let anc = merge_anchors(o, p, t);
    let a = merge_walk(o, p, t, anc, anc.len() as int);
    let s = after(anc, anc.len() as int);
    acc_finish(decide_segment(a, o.subrange(s.0, o.len() as int), p.subrange(s.1, p.len() as int), t.subrange(s.2, t.len() as int)))
}

/// The line-level three-way merge of three texts.
pub open spec fn merge3_spec(ours: Seq<char>, base: Seq<char>, theirs: Seq<char>) -> Seq<MergeV> {
    merge3_lines(lines_incl(ours), lines_incl(base), lines_incl(theirs))
}

// ───────────────────────── anchors (exec) ─────────────────────────

pub open spec fn anchors_ok(anc: Seq<(int, int, int)>, o_len: int, p_len: int, t_len: int) -> bool {
    &&& forall|k: int| 0 <= k < anc.len() ==> 0 <= (#[trigger] anc[k]).0 < o_len && 0 <= anc[k].1 < p_len && 0 <= anc[k].2 < t_len
    &&& forall|k1: int, k2: int| 0 <= k1 < k2 < anc.len() ==> (#[trigger] anc[k1]).0 < (#[trigger] anc[k2]).0 && anc[k1].1 < anc[k2].1 && anc[k1].2 < anc[k2].2
}

pub open spec fn triple_view(v: Seq<(usize, usize, usize)>) -> Seq<(int, int, int)> {
    v.map_values(|x: (usize, usize, usize)| (x.0 as int, x.1 as int, x.2 as int))
}

/// Anchors from the two base maps.
fn find_anchors(am: &Vec<Option<usize>>, bm: &Vec<Option<usize>>, Ghost(o): Ghost<Seq<Seq<char>>>, Ghost(p): Ghost<Seq<Seq<char>>>, Ghost(t): Ghost<Seq<Seq<char>>>) -> (anc: Vec<(usize, usize, usize)>)
    requires
        am@.len() == p.len(),
        bm@.len() == p.len(),
        forall|j: int| 0 <= j < p.len() ==> #[trigger] crate::lcs::opt_nat(am@[j]) == lcs_trace(o, p, 0, 0)[j],
        forall|j: int| 0 <= j < p.len() ==> #[trigger] crate::lcs::opt_nat(bm@[j]) == lcs_trace(t, p, 0, 0)[j],
    ensures
        triple_view(anc@) == merge_anchors(o, p, t),
        anchors_ok(triple_view(anc@), o.len() as int, p.len() as int, t.len() as int),
{
    let ghost tm = lcs_trace(o, p, 0, 0);
    let ghost tt = lcs_trace(t, p, 0, 0);
    proof {
        lemma_trace_matching(o, p, 0, 0);
        lemma_trace_matching(t, p, 0, 0);
        assert(p.skip(0) =~= p);
    }
    let mut anc: Vec<(usize, usize, usize)> = Vec::new();
    let mut j: usize = 0;
    assert(triple_view(anc@) =~= anchors(tm, tt, 0));
    while j < am.len()
        invariant
            j <= am@.len(),
            am@.len() == p.len(),
            bm@.len() == p.len(),
            forall|jj: int| 0 <= jj < p.len() ==> #[trigger] crate::lcs::opt_nat(am@[jj]) == tm[jj],
            forall|jj: int| 0 <= jj < p.len() ==> #[trigger] crate::lcs::opt_nat(bm@[jj]) == tt[jj],
            is_matching(o, p, tm, 0),
            is_matching(t, p, tt, 0),
            tm == lcs_trace(o, p, 0, 0),
            tt == lcs_trace(t, p, 0, 0),
            triple_view(anc@) == anchors(tm, tt, j as int),
            anchors_ok(triple_view(anc@), o.len() as int, p.len() as int, t.len() as int),
            forall|k: int| 0 <= k < anc@.len() ==> (#[trigger] anc@[k]).1 < j && tm[anc@[k].1 as int] == Some(anc@[k].0 as nat) && tt[anc@[k].1 as int] == Some(anc@[k].2 as nat),
        decreases am@.len() - j,
    {
        let ghost before = triple_view(anc@);
        assert(crate::lcs::opt_nat(am@[j as int]) == tm[j as int]);
        assert(crate::lcs::opt_nat(bm@[j as int]) == tt[j as int]);
        match (am[j], bm[j]) {
            (Some(oi), Some(ti)) => {
                anc.push((oi, j, ti));
                proof {
                    assert(triple_view(anc@) =~= before + seq![(oi as int, j as int, ti as int)]);
                    assert forall|k1: int, k2: int| 0 <= k1 < k2 < triple_view(anc@).len() implies (#[trigger] triple_view(anc@)[k1]).0 < (#[trigger] triple_view(anc@)[k2]).0 && triple_view(anc@)[k1].1 < triple_view(anc@)[k2].1 && triple_view(anc@)[k1].2 < triple_view(anc@)[k2].2 by {
                        if k2 == triple_view(anc@).len() - 1 {
                            let jj = anc@[k1].1 as int;
                            assert(tm[jj] is Some && tm[j as int] is Some);
                            assert(tt[jj] is Some && tt[j as int] is Some);
                        }
                    }
                }
            },
            _ => {
                assert(triple_view(anc@) =~= before + Seq::<(int, int, int)>::empty());
            },
        }
        j = j + 1;
    }
    anc
}

// ───────────────────────── accumulator (exec) ─────────────────────────

/// Output accumulator: adjacent resolved text joins into one block, adjacent conflicts into one.
pub struct Acc {
    pub out: Vec<Merge>,
    pub resolved: Vec<char>,
    pub co: Vec<char>,
    pub cp: Vec<char>,
    pub ct: Vec<char>,
    pub in_conflict: bool,
}

impl Acc {
    pub open spec fn view(&self) -> AccV {
        AccV { out: merge_views(self.out@), resolved: self.resolved@, co: self.co@, cp: self.cp@, ct: self.ct@, in_conflict: self.in_conflict }
    }

    pub fn new() -> (a: Acc)
        ensures
            a.view() == acc_empty(),
    {
        let a = Acc { out: Vec::new(), resolved: Vec::new(), co: Vec::new(), cp: Vec::new(), ct: Vec::new(), in_conflict: false };
        assert(a.view().out =~= Seq::<MergeV>::empty());
        a
    }

    fn flush_resolved(&mut self)
        ensures
            final(self).view() == acc_flush_resolved(old(self).view()),
    {
        if self.resolved.len() > 0 {
            let mut t: Vec<char> = Vec::new();
            std::mem::swap(&mut t, &mut self.resolved);
            let ghost before = merge_views(self.out@);
            self.out.push(Merge::Resolved(crate::text::string_of(&t)));
            assert(merge_views(self.out@) =~= before.push(MergeV::Resolved(t@)));
            assert(self.resolved@ =~= Seq::<char>::empty());
        }
    }

    fn flush_conflict(&mut self)
        ensures
            final(self).view() == acc_flush_conflict(old(self).view()),
    {
        if self.in_conflict {
            let mut o: Vec<char> = Vec::new();
            std::mem::swap(&mut o, &mut self.co);
            let mut p: Vec<char> = Vec::new();
            std::mem::swap(&mut p, &mut self.cp);
            let mut t: Vec<char> = Vec::new();
            std::mem::swap(&mut t, &mut self.ct);
            let ghost before = merge_views(self.out@);
            self.out.push(Merge::Conflict { ours: crate::text::string_of(&o), base: crate::text::string_of(&p), theirs: crate::text::string_of(&t) });
            assert(merge_views(self.out@) =~= before.push(MergeV::Conflict(o@, p@, t@)));
            self.in_conflict = false;
            assert(self.co@ =~= Seq::<char>::empty());
            assert(self.cp@ =~= Seq::<char>::empty());
            assert(self.ct@ =~= Seq::<char>::empty());
        }
    }

    fn push_resolved(&mut self, line: &[char])
        ensures
            final(self).view() == acc_push_resolved(old(self).view(), line@),
    {
        self.flush_conflict();
        crate::text::push_chars(&mut self.resolved, line);
    }

    fn push_resolved_seg(&mut self, seg: &Vec<Vec<char>>, lo: usize, hi: usize)
        requires
            lo <= hi <= seg.len(),
        ensures
            final(self).view() == acc_push_resolved(old(self).view(), concat(views(seg@).subrange(lo as int, hi as int))),
    {
        self.flush_conflict();
        crate::text::push_lines(&mut self.resolved, seg, lo, hi);
    }

    fn push_conflict(&mut self, o: &[char], p: &[char], t: &[char])
        ensures
            final(self).view() == acc_push_conflict(old(self).view(), o@, p@, t@),
    {
        self.flush_resolved();
        crate::text::push_chars(&mut self.co, o);
        crate::text::push_chars(&mut self.cp, p);
        crate::text::push_chars(&mut self.ct, t);
        self.in_conflict = true;
    }

    fn push_conflict_seg(&mut self, o: &Vec<Vec<char>>, oi: usize, oa: usize, p: &Vec<Vec<char>>, pj: usize, pa: usize, t: &Vec<Vec<char>>, ti: usize, ta: usize)
        requires
            oi <= oa <= o.len(),
            pj <= pa <= p.len(),
            ti <= ta <= t.len(),
        ensures
            final(self).view() == acc_push_conflict(old(self).view(), concat(views(o@).subrange(oi as int, oa as int)), concat(views(p@).subrange(pj as int, pa as int)), concat(views(t@).subrange(ti as int, ta as int))),
    {
        self.flush_resolved();
        crate::text::push_lines(&mut self.co, o, oi, oa);
        crate::text::push_lines(&mut self.cp, p, pj, pa);
        crate::text::push_lines(&mut self.ct, t, ti, ta);
        self.in_conflict = true;
    }

    fn finish(self) -> (r: Vec<Merge>)
        ensures
            merge_views(r@) == acc_finish(self.view()),
    {
        let mut a = self;
        a.flush_resolved();
        a.flush_conflict();
        a.out
    }
}

/// Equality of two line ranges.
fn range_eq(x: &Vec<Vec<char>>, xl: usize, xh: usize, y: &Vec<Vec<char>>, yl: usize, yh: usize) -> (r: bool)
    requires
        xl <= xh <= x.len(),
        yl <= yh <= y.len(),
    ensures
        r == (views(x@).subrange(xl as int, xh as int) == views(y@).subrange(yl as int, yh as int)),
{
    if xh - xl != yh - yl {
        assert(views(x@).subrange(xl as int, xh as int).len() != views(y@).subrange(yl as int, yh as int).len());
        return false;
    }
    let mut k: usize = 0;
    while k < xh - xl
        invariant
            xl <= xh <= x.len(),
            yl <= yh <= y.len(),
            xh - xl == yh - yl,
            k <= xh - xl,
            forall|m: int| 0 <= m < k ==> #[trigger] views(x@).subrange(xl as int, xh as int)[m] == views(y@).subrange(yl as int, yh as int)[m],
        decreases xh - xl - k,
    {
        if !line_eq(&x[xl + k], &y[yl + k]) {
            assert(views(x@).subrange(xl as int, xh as int)[k as int] != views(y@).subrange(yl as int, yh as int)[k as int]);
            return false;
        }
        assert(views(x@).subrange(xl as int, xh as int)[k as int] == views(y@).subrange(yl as int, yh as int)[k as int]);
        k = k + 1;
    }
    assert(views(x@).subrange(xl as int, xh as int) =~= views(y@).subrange(yl as int, yh as int));
    true
}

/// Decides the segment `o[oi..oa]`, `p[pj..pa]`, `t[ti..ta]`.
fn emit_segment(o: &Vec<Vec<char>>, oi: usize, oa: usize, p: &Vec<Vec<char>>, pj: usize, pa: usize, t: &Vec<Vec<char>>, ti: usize, ta: usize, acc: &mut Acc)
    requires
        oi <= oa <= o.len(),
        pj <= pa <= p.len(),
        ti <= ta <= t.len(),
    ensures
        final(acc).view() == decide_segment(old(acc).view(), views(o@).subrange(oi as int, oa as int), views(p@).subrange(pj as int, pa as int), views(t@).subrange(ti as int, ta as int)),
{
    reveal(decide_segment);
    let ghost oc = views(o@).subrange(oi as int, oa as int);
    let ghost pc = views(p@).subrange(pj as int, pa as int);
    let ghost tc = views(t@).subrange(ti as int, ta as int);
    if oa - oi == pa - pj && ta - ti == pa - pj {
        let n = pa - pj;
        let mut r: usize = 0;
        while r < n
            invariant
                oi <= oa <= o.len(),
                pj <= pa <= p.len(),
                ti <= ta <= t.len(),
                n == pa - pj,
                oa - oi == n,
                ta - ti == n,
                r <= n,
                oc == views(o@).subrange(oi as int, oa as int),
                pc == views(p@).subrange(pj as int, pa as int),
                tc == views(t@).subrange(ti as int, ta as int),
                acc.view() == decide_lines(old(acc).view(), oc, pc, tc, r as nat),
            decreases n - r,
        {
            let ol = &o[oi + r];
            let pl = &p[pj + r];
            let tl = &t[ti + r];
            assert(oc[r as int] == ol@);
            assert(pc[r as int] == pl@);
            assert(tc[r as int] == tl@);
            if line_eq(ol, pl) {
                acc.push_resolved(tl);
            } else if line_eq(tl, pl) || line_eq(ol, tl) {
                acc.push_resolved(ol);
            } else {
                acc.push_conflict(ol, pl, tl);
            }
            r = r + 1;
        }
    } else if range_eq(o, oi, oa, t, ti, ta) {
        acc.push_resolved_seg(o, oi, oa);
    } else if range_eq(o, oi, oa, p, pj, pa) {
        acc.push_resolved_seg(t, ti, ta);
    } else if range_eq(t, ti, ta, p, pj, pa) {
        acc.push_resolved_seg(o, oi, oa);
    } else {
        acc.push_conflict_seg(o, oi, oa, p, pj, pa, t, ti, ta);
    }
}

/// Line-level three-way merge of three texts (lines keep their `\n`).
pub fn merge3(ours: &str, base: &str, theirs: &str) -> (r: Vec<Merge>)
    ensures
        merge_views(r@) == merge3_spec(ours@, base@, theirs@),
{
    let o = crate::text::lines_incl_of(&crate::text::chars_of(ours));
    let p = crate::text::lines_incl_of(&crate::text::chars_of(base));
    let t = crate::text::lines_incl_of(&crate::text::chars_of(theirs));
    let ghost ov = views(o@);
    let ghost pv = views(p@);
    let ghost tv = views(t@);
    let am = lcs_map(&o, &p);
    let bm = lcs_map(&t, &p);
    let anc = find_anchors(&am, &bm, Ghost(ov), Ghost(pv), Ghost(tv));
    let ghost av = triple_view(anc@);
    let mut acc = Acc::new();
    let mut oi: usize = 0;
    let mut pj: usize = 0;
    let mut ti: usize = 0;
    let mut k: usize = 0;
    while k < anc.len()
        invariant
            k <= anc@.len(),
            av == triple_view(anc@),
            av == merge_anchors(ov, pv, tv),
            anchors_ok(av, o.len() as int, p.len() as int, t.len() as int),
            ov == views(o@),
            pv == views(p@),
            tv == views(t@),
            (oi as int, pj as int, ti as int) == after(av, k as int),
            oi <= o.len(),
            pj <= p.len(),
            ti <= t.len(),
            acc.view() == merge_walk(ov, pv, tv, av, k as int),
        decreases anc@.len() - k,
    {
        let (oa, pa, ta) = anc[k];
        assert(av[k as int] == (oa as int, pa as int, ta as int));
        proof {
            if k > 0 {
                assert(av[k - 1].0 < av[k as int].0);
            }
        }
        emit_segment(&o, oi, oa, &p, pj, pa, &t, ti, ta, &mut acc);
        acc.push_resolved(&p[pa]);
        oi = oa + 1;
        pj = pa + 1;
        ti = ta + 1;
        k = k + 1;
    }
    emit_segment(&o, oi, o.len(), &p, pj, p.len(), &t, ti, t.len(), &mut acc);
    acc.finish()
}

// ───────────────────────── aligned three-way regions ─────────────────────────

/// The class of a region of the aligned three-way diff.
#[derive(Debug, Clone, Copy, PartialEq, Eq, Structural)]
pub enum RegionKind {
    /// All three sides agree.
    Unchanged,
    /// Only ours changed from base (theirs equals base).
    OursOnly,
    /// Only theirs changed from base (ours equals base).
    TheirsOnly,
    /// Both sides made the same change.
    BothSame,
    /// Both sides changed differently.
    Conflict,
}

/// A region of the aligned three-way diff: each side's own lines, each with its `\n`.
#[derive(Debug, PartialEq, Eq)]
pub struct MergeRegion {
    pub kind: RegionKind,
    pub ours: Vec<String>,
    pub base: Vec<String>,
    pub theirs: Vec<String>,
}

/// The characters of each string.
pub open spec fn strs(v: Seq<String>) -> Seq<Seq<char>> {
    v.map_values(|x: String| x@)
}

/// A region as line sequences.
pub struct RegionV {
    pub kind: RegionKind,
    pub ours: Seq<Seq<char>>,
    pub base: Seq<Seq<char>>,
    pub theirs: Seq<Seq<char>>,
}

impl MergeRegion {
    pub open spec fn view(&self) -> RegionV {
        RegionV { kind: self.kind, ours: strs(self.ours@), base: strs(self.base@), theirs: strs(self.theirs@) }
    }
}

pub open spec fn region_views(v: Seq<MergeRegion>) -> Seq<RegionV> {
    v.map_values(|r: MergeRegion| r.view())
}

/// The region accumulator: finished regions and the open one.
pub struct RAccV {
    pub out: Seq<RegionV>,
    pub cur: Option<RegionV>,
}

/// Appends lines of one kind, joining them to the open region when it has that kind.
pub open spec fn racc_push(a: RAccV, kind: RegionKind, oc: Seq<Seq<char>>, pc: Seq<Seq<char>>, tc: Seq<Seq<char>>) -> RAccV {
    if oc.len() == 0 && pc.len() == 0 && tc.len() == 0 {
        a
    } else {
        match a.cur {
            Some(r) => if r.kind == kind {
                RAccV { out: a.out, cur: Some(RegionV { kind, ours: r.ours + oc, base: r.base + pc, theirs: r.theirs + tc }) }
            } else {
                RAccV { out: a.out.push(r), cur: Some(RegionV { kind, ours: oc, base: pc, theirs: tc }) }
            },
            None => RAccV { out: a.out, cur: Some(RegionV { kind, ours: oc, base: pc, theirs: tc }) },
        }
    }
}

pub open spec fn racc_finish(a: RAccV) -> Seq<RegionV> {
    match a.cur {
        Some(r) => a.out.push(r),
        None => a.out,
    }
}

/// The class of one line of an equal-length segment.
pub open spec fn line_kind(o: Seq<char>, p: Seq<char>, t: Seq<char>) -> RegionKind {
    if o == p && t == p {
        RegionKind::Unchanged
    } else if o == p {
        RegionKind::TheirsOnly
    } else if t == p {
        RegionKind::OursOnly
    } else if o == t {
        RegionKind::BothSame
    } else {
        RegionKind::Conflict
    }
}

pub open spec fn classify_lines(a: RAccV, oc: Seq<Seq<char>>, pc: Seq<Seq<char>>, tc: Seq<Seq<char>>, n: nat) -> RAccV
    decreases n,
{
    if n == 0 {
        a
    } else {
        let b = classify_lines(a, oc, pc, tc, (n - 1) as nat);
        racc_push(b, line_kind(oc[n - 1], pc[n - 1], tc[n - 1]), seq![oc[n - 1]], seq![pc[n - 1]], seq![tc[n - 1]])
    }
}

/// Classifies one segment between two anchors.
pub open spec fn classify_segment(a: RAccV, oc: Seq<Seq<char>>, pc: Seq<Seq<char>>, tc: Seq<Seq<char>>) -> RAccV {
    if oc.len() == pc.len() && tc.len() == pc.len() {
        classify_lines(a, oc, pc, tc, pc.len())
    } else if oc == tc {
        racc_push(a, RegionKind::BothSame, oc, pc, tc)
    } else if oc == pc {
        racc_push(a, RegionKind::TheirsOnly, oc, pc, tc)
    } else if tc == pc {
        racc_push(a, RegionKind::OursOnly, oc, pc, tc)
    } else {
        racc_push(a, RegionKind::Conflict, oc, pc, tc)
    }
}

pub open spec fn region_walk(o: Seq<Seq<char>>, p: Seq<Seq<char>>, t: Seq<Seq<char>>, anc: Seq<(int, int, int)>, k: int) -> RAccV
    decreases k,
{
    if k <= 0 {
        RAccV { out: Seq::empty(), cur: None }
    } else {
        let a = region_walk(o, p, t, anc, k - 1);
        let s = after(anc, k - 1);
        let e = anc[k - 1];
        let b = classify_segment(a, o.subrange(s.0, e.0), p.subrange(s.1, e.1), t.subrange(s.2, e.2));
        racc_push(b, RegionKind::Unchanged, seq![p[e.1]], seq![p[e.1]], seq![p[e.1]])
    }
}

pub open spec fn regions_lines(o: Seq<Seq<char>>, p: Seq<Seq<char>>, t: Seq<Seq<char>>) -> Seq<RegionV> {
    let anc = merge_anchors(o, p, t);
    let a = region_walk(o, p, t, anc, anc.len() as int);
    let s = after(anc, anc.len() as int);
    racc_finish(classify_segment(a, o.subrange(s.0, o.len() as int), p.subrange(s.1, p.len() as int), t.subrange(s.2, t.len() as int)))
}

/// The aligned three-way diff of three texts.
pub open spec fn merge_regions_spec(ours: Seq<char>, base: Seq<char>, theirs: Seq<char>) -> Seq<RegionV> {
    regions_lines(lines_incl(ours), lines_incl(base), lines_incl(theirs))
}

/// Appends `lines[lo..hi]` as strings.
fn push_strings(out: &mut Vec<String>, lines: &Vec<Vec<char>>, lo: usize, hi: usize)
    requires
        lo <= hi <= lines.len(),
    ensures
        strs(final(out)@) == strs(old(out)@) + views(lines@).subrange(lo as int, hi as int),
{
    let mut i = lo;
    assert(strs(out@) =~= strs(old(out)@) + views(lines@).subrange(lo as int, lo as int));
    while i < hi
        invariant
            lo <= i <= hi <= lines.len(),
            strs(out@) == strs(old(out)@) + views(lines@).subrange(lo as int, i as int),
        decreases hi - i,
    {
        let ghost before = strs(out@);
        out.push(crate::text::string_of(&lines[i]));
        assert(strs(out@) =~= before.push(lines@[i as int]@));
        assert(views(lines@).subrange(lo as int, i + 1) =~= views(lines@).subrange(lo as int, i as int).push(lines@[i as int]@));
        i = i + 1;
    }
}

/// Region accumulator: adjacent regions of one kind join, each side's lines are kept.
pub struct RegionAcc {
    pub out: Vec<MergeRegion>,
    pub cur: Option<MergeRegion>,
}

impl RegionAcc {
    pub open spec fn view(&self) -> RAccV {
        RAccV {
            out: region_views(self.out@),
            cur: match self.cur {
                Some(r) => Some(r.view()),
                None => None,
            },
        }
    }

    pub fn new() -> (a: RegionAcc)
        ensures
            a.view() == (RAccV { out: Seq::empty(), cur: None }),
    {
        let a = RegionAcc { out: Vec::new(), cur: None };
        assert(a.view().out =~= Seq::<RegionV>::empty());
        a
    }

    fn push_seg(&mut self, kind: RegionKind, o: &Vec<Vec<char>>, oi: usize, oa: usize, p: &Vec<Vec<char>>, pj: usize, pa: usize, t: &Vec<Vec<char>>, ti: usize, ta: usize)
        requires
            oi <= oa <= o.len(),
            pj <= pa <= p.len(),
            ti <= ta <= t.len(),
        ensures
            final(self).view() == racc_push(old(self).view(), kind, views(o@).subrange(oi as int, oa as int), views(p@).subrange(pj as int, pa as int), views(t@).subrange(ti as int, ta as int)),
    {
        let ghost oc = views(o@).subrange(oi as int, oa as int);
        let ghost pc = views(p@).subrange(pj as int, pa as int);
        let ghost tc = views(t@).subrange(ti as int, ta as int);
        if oa == oi && pa == pj && ta == ti {
            return;
        }
        let mut cur: Option<MergeRegion> = None;
        std::mem::swap(&mut cur, &mut self.cur);
        match cur {
            Some(r) => {
                if r.kind == kind {
                    let mut r = r;
                    push_strings(&mut r.ours, o, oi, oa);
                    push_strings(&mut r.base, p, pj, pa);
                    push_strings(&mut r.theirs, t, ti, ta);
                    self.cur = Some(r);
                } else {
                    let ghost before = region_views(self.out@);
                    let ghost rv = r.view();
                    self.out.push(r);
                    assert(region_views(self.out@) =~= before.push(rv));
                    let mut ours: Vec<String> = Vec::new();
                    let mut base: Vec<String> = Vec::new();
                    let mut theirs: Vec<String> = Vec::new();
                    push_strings(&mut ours, o, oi, oa);
                    push_strings(&mut base, p, pj, pa);
                    push_strings(&mut theirs, t, ti, ta);
                    assert(strs(ours@) =~= oc);
                    assert(strs(base@) =~= pc);
                    assert(strs(theirs@) =~= tc);
                    self.cur = Some(MergeRegion { kind, ours, base, theirs });
                }
            },
            None => {
                let mut ours: Vec<String> = Vec::new();
                let mut base: Vec<String> = Vec::new();
                let mut theirs: Vec<String> = Vec::new();
                push_strings(&mut ours, o, oi, oa);
                push_strings(&mut base, p, pj, pa);
                push_strings(&mut theirs, t, ti, ta);
                assert(strs(ours@) =~= oc);
                assert(strs(base@) =~= pc);
                assert(strs(theirs@) =~= tc);
                self.cur = Some(MergeRegion { kind, ours, base, theirs });
            },
        }
    }

    fn finish(self) -> (r: Vec<MergeRegion>)
        ensures
            region_views(r@) == racc_finish(self.view()),
    {
        let mut a = self;
        let mut cur: Option<MergeRegion> = None;
        std::mem::swap(&mut cur, &mut a.cur);
        match cur {
            Some(r) => {
                let ghost before = region_views(a.out@);
                let ghost rv = r.view();
                a.out.push(r);
                assert(region_views(a.out@) =~= before.push(rv));
            },
            None => {},
        }
        a.out
    }
}

/// Classifies the segment `o[oi..oa]`, `p[pj..pa]`, `t[ti..ta]`.
fn emit_region_segment(o: &Vec<Vec<char>>, oi: usize, oa: usize, p: &Vec<Vec<char>>, pj: usize, pa: usize, t: &Vec<Vec<char>>, ti: usize, ta: usize, acc: &mut RegionAcc)
    requires
        oi <= oa <= o.len(),
        pj <= pa <= p.len(),
        ti <= ta <= t.len(),
    ensures
        final(acc).view() == classify_segment(old(acc).view(), views(o@).subrange(oi as int, oa as int), views(p@).subrange(pj as int, pa as int), views(t@).subrange(ti as int, ta as int)),
{
    let ghost oc = views(o@).subrange(oi as int, oa as int);
    let ghost pc = views(p@).subrange(pj as int, pa as int);
    let ghost tc = views(t@).subrange(ti as int, ta as int);
    if oa - oi == pa - pj && ta - ti == pa - pj {
        let n = pa - pj;
        let mut r: usize = 0;
        while r < n
            invariant
                oi <= oa <= o.len(),
                pj <= pa <= p.len(),
                ti <= ta <= t.len(),
                n == pa - pj,
                oa - oi == n,
                ta - ti == n,
                r <= n,
                oc == views(o@).subrange(oi as int, oa as int),
                pc == views(p@).subrange(pj as int, pa as int),
                tc == views(t@).subrange(ti as int, ta as int),
                acc.view() == classify_lines(old(acc).view(), oc, pc, tc, r as nat),
            decreases n - r,
        {
            let op = line_eq(&o[oi + r], &p[pj + r]);
            let tp = line_eq(&t[ti + r], &p[pj + r]);
            let ot = line_eq(&o[oi + r], &t[ti + r]);
            let kind = if op && tp {
                RegionKind::Unchanged
            } else if op {
                RegionKind::TheirsOnly
            } else if tp {
                RegionKind::OursOnly
            } else if ot {
                RegionKind::BothSame
            } else {
                RegionKind::Conflict
            };
            assert(kind == line_kind(oc[r as int], pc[r as int], tc[r as int]));
            assert(views(o@).subrange(oi + r, oi + r + 1) =~= seq![oc[r as int]]);
            assert(views(p@).subrange(pj + r, pj + r + 1) =~= seq![pc[r as int]]);
            assert(views(t@).subrange(ti + r, ti + r + 1) =~= seq![tc[r as int]]);
            acc.push_seg(kind, o, oi + r, oi + r + 1, p, pj + r, pj + r + 1, t, ti + r, ti + r + 1);
            r = r + 1;
        }
    } else if range_eq(o, oi, oa, t, ti, ta) {
        acc.push_seg(RegionKind::BothSame, o, oi, oa, p, pj, pa, t, ti, ta);
    } else if range_eq(o, oi, oa, p, pj, pa) {
        acc.push_seg(RegionKind::TheirsOnly, o, oi, oa, p, pj, pa, t, ti, ta);
    } else if range_eq(t, ti, ta, p, pj, pa) {
        acc.push_seg(RegionKind::OursOnly, o, oi, oa, p, pj, pa, t, ti, ta);
    } else {
        acc.push_seg(RegionKind::Conflict, o, oi, oa, p, pj, pa, t, ti, ta);
    }
}

/// Whole-file aligned three-way diff: regions classified by which sides changed, each
/// keeping the lines of all three sides.
pub fn merge_regions(ours: &str, base: &str, theirs: &str) -> (r: Vec<MergeRegion>)
    ensures
        region_views(r@) == merge_regions_spec(ours@, base@, theirs@),
{
    let o = crate::text::lines_incl_of(&crate::text::chars_of(ours));
    let p = crate::text::lines_incl_of(&crate::text::chars_of(base));
    let t = crate::text::lines_incl_of(&crate::text::chars_of(theirs));
    let ghost ov = views(o@);
    let ghost pv = views(p@);
    let ghost tv = views(t@);
    let am = lcs_map(&o, &p);
    let bm = lcs_map(&t, &p);
    let anc = find_anchors(&am, &bm, Ghost(ov), Ghost(pv), Ghost(tv));
    let ghost av = triple_view(anc@);
    let mut acc = RegionAcc::new();
    let mut oi: usize = 0;
    let mut pj: usize = 0;
    let mut ti: usize = 0;
    let mut k: usize = 0;
    while k < anc.len()
        invariant
            k <= anc@.len(),
            av == triple_view(anc@),
            av == merge_anchors(ov, pv, tv),
            anchors_ok(av, o.len() as int, p.len() as int, t.len() as int),
            ov == views(o@),
            pv == views(p@),
            tv == views(t@),
            (oi as int, pj as int, ti as int) == after(av, k as int),
            oi <= o.len(),
            pj <= p.len(),
            ti <= t.len(),
            acc.view() == region_walk(ov, pv, tv, av, k as int),
        decreases anc@.len() - k,
    {
        let (oa, pa, ta) = anc[k];
        assert(av[k as int] == (oa as int, pa as int, ta as int));
        proof {
            if k > 0 {
                assert(av[k - 1].0 < av[k as int].0);
            }
        }
        emit_region_segment(&o, oi, oa, &p, pj, pa, &t, ti, ta, &mut acc);
        assert(views(p@).subrange(pa as int, pa + 1) =~= seq![pv[pa as int]]);
        acc.push_seg(RegionKind::Unchanged, &p, pa, pa + 1, &p, pa, pa + 1, &p, pa, pa + 1);
        oi = oa + 1;
        pj = pa + 1;
        ti = ta + 1;
        k = k + 1;
    }
    emit_region_segment(&o, oi, o.len(), &p, pj, p.len(), &t, ti, t.len(), &mut acc);
    acc.finish()
}

// ───────────────────────── laws ─────────────────────────

/// The anchors of two valid base maps are strictly increasing in all three coordinates
/// and each one is a base line that both maps keep.
proof fn lemma_anchors(am: Seq<Option<nat>>, bm: Seq<Option<nat>>, o: Seq<Seq<char>>, p: Seq<Seq<char>>, t: Seq<Seq<char>>, k: int)
    requires
        is_matching(o, p, am, 0),
        is_matching(t, p, bm, 0),
        0 <= k <= p.len(),
    ensures
        anchors_ok(anchors(am, bm, k), o.len() as int, p.len() as int, t.len() as int),
        forall|x: int| 0 <= x < anchors(am, bm, k).len() ==> 0 <= (#[trigger] anchors(am, bm, k)[x]).1 < k
            && am[anchors(am, bm, k)[x].1] == Some(anchors(am, bm, k)[x].0 as nat)
            && bm[anchors(am, bm, k)[x].1] == Some(anchors(am, bm, k)[x].2 as nat),
    decreases k,
{
    if k > 0 {
        lemma_anchors(am, bm, o, p, t, k - 1);
        let prev = anchors(am, bm, k - 1);
        if am[k - 1] is Some && bm[k - 1] is Some {
            let e = (am[k - 1]->0 as int, k - 1, bm[k - 1]->0 as int);
            let cur = anchors(am, bm, k);
            assert(cur =~= prev + seq![e]);
            assert forall|x: int| 0 <= x < prev.len() implies (#[trigger] prev[x]).0 < e.0 && prev[x].1 < e.1 && prev[x].2 < e.2 by {
                let j = prev[x].1;
                assert(am[j] is Some && am[k - 1] is Some);
                assert(bm[j] is Some && bm[k - 1] is Some);
            }
            assert forall|x1: int, x2: int| 0 <= x1 < x2 < cur.len() implies (#[trigger] cur[x1]).0 < (#[trigger] cur[x2]).0 && cur[x1].1 < cur[x2].1 && cur[x1].2 < cur[x2].2 by {
                if x2 == cur.len() - 1 {
                    assert(cur[x1] == prev[x1]);
                } else {
                    assert(cur[x1] == prev[x1] && cur[x2] == prev[x2]);
                }
            }
        } else {
            assert(anchors(am, bm, k) =~= prev);
        }
    }
}

/// Reading the LCS table of a sequence against itself matches every line to itself.
proof fn lemma_trace_identity(a: Seq<Seq<char>>, i: int)
    requires
        0 <= i <= a.len(),
    ensures
        lcs_trace(a, a, i, i) == Seq::new((a.len() - i) as nat, |k: int| Some((i + k) as nat)),
    decreases a.len() - i,
{
    if i < a.len() {
        lemma_trace_identity(a, i + 1);
        assert(lcs_trace(a, a, i, i) =~= Seq::new((a.len() - i) as nat, |k: int| Some((i + k) as nat)));
    } else {
        assert(lcs_trace(a, a, i, i) =~= Seq::new((a.len() - i) as nat, |k: int| Some((i + k) as nat)));
    }
}

/// An accumulator that holds only the resolved text `r`.
pub open spec fn acc_res(r: Seq<char>) -> AccV {
    AccV { out: Seq::empty(), resolved: r, co: Seq::empty(), cp: Seq::empty(), ct: Seq::empty(), in_conflict: false }
}

/// A segment that resolves to the side `take_ours` names: that side agrees with the
/// other side, or the other side equals base.
pub open spec fn seg_resolves(oc: Seq<Seq<char>>, pc: Seq<Seq<char>>, tc: Seq<Seq<char>>, take_ours: bool) -> bool {
    if take_ours {
        oc == tc || tc == pc
    } else {
        oc == tc || oc == pc
    }
}

proof fn lemma_concat_take_step(x: Seq<Seq<char>>, n: int)
    requires
        0 < n <= x.len(),
    ensures
        concat(x.take(n)) == concat(x.take(n - 1)) + x[n - 1],
{
    assert(x.take(n) =~= x.take(n - 1).push(x[n - 1]));
    lemma_concat_push(x.take(n - 1), x[n - 1]);
}

proof fn lemma_lines_resolve(r0: Seq<char>, oc: Seq<Seq<char>>, pc: Seq<Seq<char>>, tc: Seq<Seq<char>>, n: nat, take_ours: bool)
    requires
        n <= pc.len(),
        oc.len() == pc.len(),
        tc.len() == pc.len(),
        forall|i: int| 0 <= i < n ==> if take_ours { oc[i] == tc[i] || tc[i] == pc[i] } else { oc[i] == tc[i] || oc[i] == pc[i] },
    ensures
        decide_lines(acc_res(r0), oc, pc, tc, n) == acc_res(r0 + concat((if take_ours { oc } else { tc }).take(n as int))),
    decreases n,
{
    let side = if take_ours { oc } else { tc };
    if n == 0 {
        assert(r0 + concat(side.take(0)) =~= r0);
    } else {
        lemma_lines_resolve(r0, oc, pc, tc, (n - 1) as nat, take_ours);
        lemma_concat_take_step(side, n as int);
        let i = n - 1;
        assert(if take_ours { oc[i] == tc[i] || tc[i] == pc[i] } else { oc[i] == tc[i] || oc[i] == pc[i] });
        assert(r0 + concat(side.take(n - 1)) + side[n - 1] =~= r0 + concat(side.take(n as int)));
    }
}

proof fn lemma_segment_resolve(r0: Seq<char>, oc: Seq<Seq<char>>, pc: Seq<Seq<char>>, tc: Seq<Seq<char>>, take_ours: bool)
    requires
        seg_resolves(oc, pc, tc, take_ours),
    ensures
        decide_segment(acc_res(r0), oc, pc, tc) == acc_res(r0 + concat(if take_ours { oc } else { tc })),
{
    reveal(decide_segment);
    if oc.len() == pc.len() && tc.len() == pc.len() {
        lemma_lines_resolve(r0, oc, pc, tc, pc.len(), take_ours);
        assert(oc.take(pc.len() as int) =~= oc);
        assert(tc.take(pc.len() as int) =~= tc);
    }
}

/// Start coordinate on the taken side.
pub open spec fn side_at(s: (int, int, int), take_ours: bool) -> int {
    if take_ours { s.0 } else { s.2 }
}

#[verifier::spinoff_prover]
#[verifier::rlimit(40)]
proof fn lemma_walk_resolve(o: Seq<Seq<char>>, p: Seq<Seq<char>>, t: Seq<Seq<char>>, anc: Seq<(int, int, int)>, k: int, take_ours: bool)
    requires
        anchors_ok(anc, o.len() as int, p.len() as int, t.len() as int),
        0 <= k <= anc.len(),
        forall|x: int| 0 <= x < anc.len() ==> seg_resolves(o.subrange(after(anc, x).0, (#[trigger] anc[x]).0), p.subrange(after(anc, x).1, anc[x].1), t.subrange(after(anc, x).2, anc[x].2), take_ours),
        forall|x: int| 0 <= x < anc.len() ==> p[(#[trigger] anc[x]).1] == if take_ours { o[anc[x].0] } else { t[anc[x].2] },
    ensures
        merge_walk(o, p, t, anc, k) == acc_res(concat((if take_ours { o } else { t }).take(side_at(after(anc, k), take_ours)))),
        0 <= after(anc, k).0 <= o.len(),
        0 <= after(anc, k).1 <= p.len(),
        0 <= after(anc, k).2 <= t.len(),
        k < anc.len() ==> after(anc, k).0 <= anc[k].0 && after(anc, k).1 <= anc[k].1 && after(anc, k).2 <= anc[k].2,
    decreases k,
{
    let side = if take_ours { o } else { t };
    if k == 0 {
        assert(side.take(0) =~= Seq::<Seq<char>>::empty());
        assert(concat(Seq::<Seq<char>>::empty()) == Seq::<char>::empty());
        if anc.len() > 0 {
            assert(0 <= anc[0].0);
        }
    } else {
        lemma_walk_resolve(o, p, t, anc, k - 1, take_ours);
        let s = after(anc, k - 1);
        let e = anc[k - 1];
        let cs = side_at(s, take_ours);
        let ce = side_at(e, take_ours);
        assert(seg_resolves(o.subrange(s.0, e.0), p.subrange(s.1, e.1), t.subrange(s.2, e.2), take_ours));
        lemma_segment_resolve(concat(side.take(cs)), o.subrange(s.0, e.0), p.subrange(s.1, e.1), t.subrange(s.2, e.2), take_ours);
        assert(p[e.1] == side[ce]);
        let mid = side.subrange(cs, ce);
        assert(mid == (if take_ours { o.subrange(s.0, e.0) } else { t.subrange(s.2, e.2) }));
        lemma_concat_append(side.take(cs), mid);
        assert(side.take(cs) + mid =~= side.take(ce));
        lemma_concat_take_step(side, ce + 1);
        assert(side.take(ce + 1).take(ce) =~= side.take(ce));
        assert(side.take(ce + 1 - 1) =~= side.take(ce));
        assert(concat(side.take(cs)) + concat(mid) + p[e.1] =~= concat(side.take(ce + 1)));
        if k < anc.len() {
            assert(anc[k - 1].0 < anc[k].0);
        }
    }
}

/// The merge of line sequences when every segment resolves to one side.
#[verifier::rlimit(60)]
proof fn lemma_merge_resolves(o: Seq<Seq<char>>, p: Seq<Seq<char>>, t: Seq<Seq<char>>, anc: Seq<(int, int, int)>, take_ours: bool)
    requires
        anc == merge_anchors(o, p, t),
        anchors_ok(anc, o.len() as int, p.len() as int, t.len() as int),
        forall|x: int| 0 <= x < anc.len() ==> seg_resolves(o.subrange(after(anc, x).0, (#[trigger] anc[x]).0), p.subrange(after(anc, x).1, anc[x].1), t.subrange(after(anc, x).2, anc[x].2), take_ours),
        forall|x: int| 0 <= x < anc.len() ==> p[(#[trigger] anc[x]).1] == if take_ours { o[anc[x].0] } else { t[anc[x].2] },
        seg_resolves(o.subrange(after(anc, anc.len() as int).0, o.len() as int), p.subrange(after(anc, anc.len() as int).1, p.len() as int), t.subrange(after(anc, anc.len() as int).2, t.len() as int), take_ours),
    ensures
        merge3_lines(o, p, t) == resolved_all(concat(if take_ours { o } else { t })),
{
    let n = anc.len() as int;
    lemma_walk_resolve(o, p, t, anc, n, take_ours);
    let side = if take_ours { o } else { t };
    let s = after(anc, n);
    let cs = side_at(s, take_ours);
    let r0 = concat(side.take(cs));
    lemma_segment_resolve(r0, o.subrange(s.0, o.len() as int), p.subrange(s.1, p.len() as int), t.subrange(s.2, t.len() as int), take_ours);
    let rest = side.subrange(cs, side.len() as int);
    assert(rest == (if take_ours { o.subrange(s.0, o.len() as int) } else { t.subrange(s.2, t.len() as int) }));
    lemma_concat_append(side.take(cs), rest);
    assert(side.take(cs) + rest =~= side);
    let fin = acc_res(r0 + concat(rest));
    assert(merge3_lines(o, p, t) == acc_finish(fin));
    if concat(side).len() > 0 {
        assert(acc_finish(fin) =~= seq![MergeV::Resolved(concat(side))]);
    } else {
        assert(acc_finish(fin) =~= Seq::<MergeV>::empty());
    }
}

/// The whole text as one resolved block (nothing for an empty text).
pub open spec fn resolved_all(x: Seq<char>) -> Seq<MergeV> {
    if x.len() > 0 {
        seq![MergeV::Resolved(x)]
    } else {
        Seq::empty()
    }
}

/// When both sides made the same change, the merge resolves to that version.
pub proof fn law_merge3_same_change(side: Seq<char>, base: Seq<char>)
    ensures
        merge3_spec(side, base, side) == resolved_all(side),
{
    let o = lines_incl(side);
    let p = lines_incl(base);
    let am = lcs_trace(o, p, 0, 0);
    lemma_trace_matching(o, p, 0, 0);
    assert(p.skip(0) =~= p);
    lemma_anchors(am, am, o, p, o, p.len() as int);
    let anc = merge_anchors(o, p, o);
    assert forall|x: int| 0 <= x <= anc.len() implies #[trigger] after(anc, x).0 == after(anc, x).2 by {
        if x > 0 {
            assert(anc[x - 1] == anchors(am, am, p.len() as int)[x - 1]);
        }
    }
    assert forall|x: int| 0 <= x < anc.len() implies seg_resolves(o.subrange(after(anc, x).0, (#[trigger] anc[x]).0), p.subrange(after(anc, x).1, anc[x].1), o.subrange(after(anc, x).2, anc[x].2), true) by {
        assert(after(anc, x).0 == after(anc, x).2);
        assert(am[anc[x].1] is Some);
    }
    assert forall|x: int| 0 <= x < anc.len() implies p[(#[trigger] anc[x]).1] == o[anc[x].0] by {
        assert(am[anc[x].1] is Some);
    }
    assert(after(anc, anc.len() as int).0 == after(anc, anc.len() as int).2);
    lemma_merge_resolves(o, p, o, anc, true);
    lemma_concat_lines_incl(side);
}

/// When only ours changed (theirs equals base), the merge resolves to ours.
pub proof fn law_merge3_only_ours_changed(ours: Seq<char>, base: Seq<char>)
    ensures
        merge3_spec(ours, base, base) == resolved_all(ours),
{
    let o = lines_incl(ours);
    let p = lines_incl(base);
    let am = lcs_trace(o, p, 0, 0);
    let bm = lcs_trace(p, p, 0, 0);
    lemma_trace_matching(o, p, 0, 0);
    lemma_trace_matching(p, p, 0, 0);
    lemma_trace_identity(p, 0);
    assert(p.skip(0) =~= p);
    lemma_anchors(am, bm, o, p, p, p.len() as int);
    let anc = merge_anchors(o, p, p);
    assert forall|x: int| 0 <= x <= anc.len() implies #[trigger] after(anc, x).1 == after(anc, x).2 by {
        if x > 0 {
            assert(bm[anc[x - 1].1] == Some((0 + anc[x - 1].1) as nat));
        }
    }
    assert forall|x: int| 0 <= x < anc.len() implies seg_resolves(o.subrange(after(anc, x).0, (#[trigger] anc[x]).0), p.subrange(after(anc, x).1, anc[x].1), p.subrange(after(anc, x).2, anc[x].2), true) by {
        assert(after(anc, x).1 == after(anc, x).2);
        assert(bm[anc[x].1] == Some((0 + anc[x].1) as nat));
    }
    assert forall|x: int| 0 <= x < anc.len() implies p[(#[trigger] anc[x]).1] == o[anc[x].0] by {
        assert(am[anc[x].1] is Some);
    }
    assert(after(anc, anc.len() as int).1 == after(anc, anc.len() as int).2);
    lemma_merge_resolves(o, p, p, anc, true);
    lemma_concat_lines_incl(ours);
}

/// When only theirs changed (ours equals base), the merge resolves to theirs.
pub proof fn law_merge3_only_theirs_changed(base: Seq<char>, theirs: Seq<char>)
    ensures
        merge3_spec(base, base, theirs) == resolved_all(theirs),
{
    let t = lines_incl(theirs);
    let p = lines_incl(base);
    let am = lcs_trace(p, p, 0, 0);
    let bm = lcs_trace(t, p, 0, 0);
    lemma_trace_matching(t, p, 0, 0);
    lemma_trace_matching(p, p, 0, 0);
    lemma_trace_identity(p, 0);
    assert(p.skip(0) =~= p);
    lemma_anchors(am, bm, p, p, t, p.len() as int);
    let anc = merge_anchors(p, p, t);
    assert forall|x: int| 0 <= x <= anc.len() implies #[trigger] after(anc, x).0 == after(anc, x).1 by {
        if x > 0 {
            assert(am[anc[x - 1].1] == Some((0 + anc[x - 1].1) as nat));
        }
    }
    assert forall|x: int| 0 <= x < anc.len() implies seg_resolves(p.subrange(after(anc, x).0, (#[trigger] anc[x]).0), p.subrange(after(anc, x).1, anc[x].1), t.subrange(after(anc, x).2, anc[x].2), false) by {
        assert(after(anc, x).0 == after(anc, x).1);
        assert(am[anc[x].1] == Some((0 + anc[x].1) as nat));
    }
    assert forall|x: int| 0 <= x < anc.len() implies p[(#[trigger] anc[x]).1] == t[anc[x].2] by {
        assert(bm[anc[x].1] is Some);
    }
    assert(after(anc, anc.len() as int).0 == after(anc, anc.len() as int).1);
    lemma_merge_resolves(p, p, t, anc, false);
    lemma_concat_lines_incl(theirs);
}


// ───────────────────────── ours and theirs swapped ─────────────────────────

/// A block with ours and theirs swapped.
pub open spec fn mirror_merge(m: MergeV) -> MergeV {
    match m {
        MergeV::Resolved(x) => MergeV::Resolved(x),
        MergeV::Conflict(o, p, t) => MergeV::Conflict(t, p, o),
    }
}

pub open spec fn mirror_merges(s: Seq<MergeV>) -> Seq<MergeV> {
    s.map_values(|m: MergeV| mirror_merge(m))
}

pub open spec fn mirror_acc(a: AccV) -> AccV {
    AccV { out: mirror_merges(a.out), resolved: a.resolved, co: a.ct, cp: a.cp, ct: a.co, in_conflict: a.in_conflict }
}

pub open spec fn swap3(x: (int, int, int)) -> (int, int, int) {
    (x.2, x.1, x.0)
}

proof fn lemma_mirror_push(out: Seq<MergeV>, m: MergeV)
    ensures
        mirror_merges(out.push(m)) == mirror_merges(out).push(mirror_merge(m)),
{
    assert(mirror_merges(out.push(m)) =~= mirror_merges(out).push(mirror_merge(m)));
}

proof fn lemma_mirror_flush(a: AccV)
    ensures
        mirror_acc(acc_flush_conflict(a)) == acc_flush_conflict(mirror_acc(a)),
        mirror_acc(acc_flush_resolved(a)) == acc_flush_resolved(mirror_acc(a)),
{
    lemma_mirror_push(a.out, MergeV::Conflict(a.co, a.cp, a.ct));
    lemma_mirror_push(a.out, MergeV::Resolved(a.resolved));
}

proof fn lemma_mirror_decide_line(a: AccV, o: Seq<char>, p: Seq<char>, t: Seq<char>)
    ensures
        mirror_acc(decide_line(a, o, p, t)) == decide_line(mirror_acc(a), t, p, o),
{
    lemma_mirror_flush(a);
    let b = acc_flush_resolved(a);
    lemma_mirror_flush(b);
}

proof fn lemma_mirror_decide_lines(a: AccV, oc: Seq<Seq<char>>, pc: Seq<Seq<char>>, tc: Seq<Seq<char>>, n: nat)
    ensures
        mirror_acc(decide_lines(a, oc, pc, tc, n)) == decide_lines(mirror_acc(a), tc, pc, oc, n),
    decreases n,
{
    if n > 0 {
        lemma_mirror_decide_lines(a, oc, pc, tc, (n - 1) as nat);
        lemma_mirror_decide_line(decide_lines(a, oc, pc, tc, (n - 1) as nat), oc[n - 1], pc[n - 1], tc[n - 1]);
    }
}

proof fn lemma_mirror_decide_segment(a: AccV, oc: Seq<Seq<char>>, pc: Seq<Seq<char>>, tc: Seq<Seq<char>>)
    ensures
        mirror_acc(decide_segment(a, oc, pc, tc)) == decide_segment(mirror_acc(a), tc, pc, oc),
{
    reveal(decide_segment);
    lemma_mirror_decide_lines(a, oc, pc, tc, pc.len());
    lemma_mirror_flush(a);
    lemma_mirror_flush(acc_flush_resolved(a));
}

proof fn lemma_anchors_swap(am: Seq<Option<nat>>, bm: Seq<Option<nat>>, k: int)
    ensures
        anchors(bm, am, k) == anchors(am, bm, k).map_values(|x: (int, int, int)| swap3(x)),
    decreases k,
{
    if k > 0 {
        lemma_anchors_swap(am, bm, k - 1);
        let tail = if am[k - 1] is Some && bm[k - 1] is Some {
            seq![(am[k - 1]->0 as int, k - 1, bm[k - 1]->0 as int)]
        } else {
            Seq::empty()
        };
        assert((anchors(am, bm, k - 1) + tail).map_values(|x: (int, int, int)| swap3(x))
            =~= anchors(am, bm, k - 1).map_values(|x: (int, int, int)| swap3(x)) + tail.map_values(|x: (int, int, int)| swap3(x)));
    } else {
        assert(anchors(bm, am, k) =~= anchors(am, bm, k).map_values(|x: (int, int, int)| swap3(x)));
    }
}

proof fn lemma_mirror_walk(o: Seq<Seq<char>>, p: Seq<Seq<char>>, t: Seq<Seq<char>>, anc: Seq<(int, int, int)>, anc2: Seq<(int, int, int)>, k: int)
    requires
        0 <= k <= anc.len(),
        anc2 == anc.map_values(|x: (int, int, int)| swap3(x)),
    ensures
        mirror_acc(merge_walk(o, p, t, anc, k)) == merge_walk(t, p, o, anc2, k),
    decreases k,
{
    if k > 0 {
        lemma_mirror_walk(o, p, t, anc, anc2, k - 1);
        let a = merge_walk(o, p, t, anc, k - 1);
        let s = after(anc, k - 1);
        let e = anc[k - 1];
        assert(anc2[k - 1] == swap3(e));
        if k - 1 > 0 {
            assert(anc2[k - 2] == swap3(anc[k - 2]));
        }
        lemma_mirror_decide_segment(a, o.subrange(s.0, e.0), p.subrange(s.1, e.1), t.subrange(s.2, e.2));
        let b = decide_segment(a, o.subrange(s.0, e.0), p.subrange(s.1, e.1), t.subrange(s.2, e.2));
        lemma_mirror_flush(b);
    } else {
        assert(mirror_merges(Seq::empty()) =~= Seq::<MergeV>::empty());
    }
}

/// Swapping ours and theirs mirrors the merge: the same blocks, in the same order, each
/// conflict with its two sides swapped.
pub proof fn law_merge3_mirror(ours: Seq<char>, base: Seq<char>, theirs: Seq<char>)
    ensures
        merge3_spec(theirs, base, ours) == mirror_merges(merge3_spec(ours, base, theirs)),
{
    let o = lines_incl(ours);
    let p = lines_incl(base);
    let t = lines_incl(theirs);
    let am = lcs_trace(o, p, 0, 0);
    let bm = lcs_trace(t, p, 0, 0);
    let anc = merge_anchors(o, p, t);
    let anc2 = merge_anchors(t, p, o);
    lemma_anchors_swap(am, bm, p.len() as int);
    lemma_mirror_walk(o, p, t, anc, anc2, anc.len() as int);
    let a = merge_walk(o, p, t, anc, anc.len() as int);
    let s = after(anc, anc.len() as int);
    if anc.len() > 0 {
        assert(anc2[anc.len() - 1] == swap3(anc[anc.len() - 1]));
    }
    lemma_mirror_decide_segment(a, o.subrange(s.0, o.len() as int), p.subrange(s.1, p.len() as int), t.subrange(s.2, t.len() as int));
    let b = decide_segment(a, o.subrange(s.0, o.len() as int), p.subrange(s.1, p.len() as int), t.subrange(s.2, t.len() as int));
    lemma_mirror_flush(b);
    lemma_mirror_flush(acc_flush_resolved(b));
}

// ───────────────────────── the aligned regions cover each side ─────────────────────────

/// The lines of one side (0 ours, 1 base, 2 theirs) of a region.
pub open spec fn side_of(r: RegionV, side: int) -> Seq<Seq<char>> {
    if side == 0 {
        r.ours
    } else if side == 1 {
        r.base
    } else {
        r.theirs
    }
}

/// One side's lines of a region sequence, in order.
pub open spec fn side_lines(rs: Seq<RegionV>, side: int) -> Seq<Seq<char>> {
    rs.map_values(|r: RegionV| side_of(r, side)).flatten()
}

/// A region's kind holds of its lines.
pub open spec fn kind_holds(r: RegionV) -> bool {
    match r.kind {
        RegionKind::Unchanged => r.ours == r.base && r.theirs == r.base,
        RegionKind::OursOnly => r.theirs == r.base,
        RegionKind::TheirsOnly => r.ours == r.base,
        RegionKind::BothSame => r.ours == r.theirs,
        RegionKind::Conflict => true,
    }
}

pub open spec fn all_hold(rs: Seq<RegionV>) -> bool {
    forall|i: int| 0 <= i < rs.len() ==> kind_holds(#[trigger] rs[i])
}

pub open spec fn pick3(side: int, oc: Seq<Seq<char>>, pc: Seq<Seq<char>>, tc: Seq<Seq<char>>) -> Seq<Seq<char>> {
    if side == 0 {
        oc
    } else if side == 1 {
        pc
    } else {
        tc
    }
}

proof fn lemma_side_push(rs: Seq<RegionV>, r: RegionV, side: int)
    ensures
        side_lines(rs.push(r), side) == side_lines(rs, side) + side_of(r, side),
{
    assert(rs.push(r).map_values(|x: RegionV| side_of(x, side)) =~= rs.map_values(|x: RegionV| side_of(x, side)).push(side_of(r, side)));
    rs.map_values(|x: RegionV| side_of(x, side)).lemma_flatten_push(side_of(r, side));
}

/// Pushing lines appends them to each side, and keeps every region's kind true when the
/// lines' kind holds of them.
proof fn lemma_racc_push(a: RAccV, kind: RegionKind, oc: Seq<Seq<char>>, pc: Seq<Seq<char>>, tc: Seq<Seq<char>>)
    requires
        kind_holds(RegionV { kind, ours: oc, base: pc, theirs: tc }),
    ensures
        forall|side: int| #[trigger] side_lines(racc_finish(racc_push(a, kind, oc, pc, tc)), side) == side_lines(racc_finish(a), side) + pick3(side, oc, pc, tc),
        all_hold(racc_finish(a)) ==> all_hold(racc_finish(racc_push(a, kind, oc, pc, tc))),
{
    let b = racc_push(a, kind, oc, pc, tc);
    assert forall|side: int| #[trigger] side_lines(racc_finish(b), side) == side_lines(racc_finish(a), side) + pick3(side, oc, pc, tc) by {
        if oc.len() == 0 && pc.len() == 0 && tc.len() == 0 {
            assert(side_lines(racc_finish(a), side) + pick3(side, oc, pc, tc) =~= side_lines(racc_finish(a), side));
        } else {
            match a.cur {
                Some(r) => {
                    let nr = RegionV { kind, ours: r.ours + oc, base: r.base + pc, theirs: r.theirs + tc };
                    lemma_side_push(a.out, r, side);
                    if r.kind == kind {
                        lemma_side_push(a.out, nr, side);
                        assert(side_of(nr, side) == side_of(r, side) + pick3(side, oc, pc, tc));
                    } else {
                        let fresh = RegionV { kind, ours: oc, base: pc, theirs: tc };
                        lemma_side_push(a.out.push(r), fresh, side);
                        assert(side_of(fresh, side) == pick3(side, oc, pc, tc));
                    }
                },
                None => {
                    let fresh = RegionV { kind, ours: oc, base: pc, theirs: tc };
                    lemma_side_push(a.out, fresh, side);
                    assert(side_of(fresh, side) == pick3(side, oc, pc, tc));
                },
            }
        }
    }
    if all_hold(racc_finish(a)) {
        let f = racc_finish(b);
        assert forall|i: int| 0 <= i < f.len() implies kind_holds(#[trigger] f[i]) by {
            match a.cur {
                Some(r) => {
                    assert(kind_holds(racc_finish(a)[a.out.len() as int]));
                    if i < a.out.len() {
                        assert(f[i] == racc_finish(a)[i]);
                    }
                },
                None => {
                    if i < a.out.len() {
                        assert(f[i] == racc_finish(a)[i]);
                    }
                },
            }
        }
    }
}

proof fn lemma_classify_lines(a: RAccV, oc: Seq<Seq<char>>, pc: Seq<Seq<char>>, tc: Seq<Seq<char>>, n: nat)
    requires
        n <= oc.len(),
        n <= pc.len(),
        n <= tc.len(),
    ensures
        forall|side: int| #[trigger] side_lines(racc_finish(classify_lines(a, oc, pc, tc, n)), side)
            == side_lines(racc_finish(a), side) + pick3(side, oc.take(n as int), pc.take(n as int), tc.take(n as int)),
        all_hold(racc_finish(a)) ==> all_hold(racc_finish(classify_lines(a, oc, pc, tc, n))),
    decreases n,
{
    if n == 0 {
        assert forall|side: int| #[trigger] side_lines(racc_finish(classify_lines(a, oc, pc, tc, n)), side)
            == side_lines(racc_finish(a), side) + pick3(side, oc.take(n as int), pc.take(n as int), tc.take(n as int)) by {
            assert(side_lines(racc_finish(a), side) + pick3(side, oc.take(0), pc.take(0), tc.take(0)) =~= side_lines(racc_finish(a), side));
        }
    } else {
        lemma_classify_lines(a, oc, pc, tc, (n - 1) as nat);
        let b = classify_lines(a, oc, pc, tc, (n - 1) as nat);
        let k = line_kind(oc[n - 1], pc[n - 1], tc[n - 1]);
        lemma_racc_push(b, k, seq![oc[n - 1]], seq![pc[n - 1]], seq![tc[n - 1]]);
        assert forall|side: int| #[trigger] side_lines(racc_finish(classify_lines(a, oc, pc, tc, n)), side)
            == side_lines(racc_finish(a), side) + pick3(side, oc.take(n as int), pc.take(n as int), tc.take(n as int)) by {
            assert(side_lines(racc_finish(b), side) == side_lines(racc_finish(a), side) + pick3(side, oc.take(n - 1), pc.take(n - 1), tc.take(n - 1)));
            assert(oc.take(n as int) =~= oc.take(n - 1) + seq![oc[n - 1]]);
            assert(pc.take(n as int) =~= pc.take(n - 1) + seq![pc[n - 1]]);
            assert(tc.take(n as int) =~= tc.take(n - 1) + seq![tc[n - 1]]);
            assert(side_lines(racc_finish(a), side) + pick3(side, oc.take(n as int), pc.take(n as int), tc.take(n as int))
                =~= side_lines(racc_finish(a), side) + pick3(side, oc.take(n - 1), pc.take(n - 1), tc.take(n - 1)) + pick3(side, seq![oc[n - 1]], seq![pc[n - 1]], seq![tc[n - 1]]));
        }
    }
}

proof fn lemma_classify_segment(a: RAccV, oc: Seq<Seq<char>>, pc: Seq<Seq<char>>, tc: Seq<Seq<char>>)
    ensures
        forall|side: int| #[trigger] side_lines(racc_finish(classify_segment(a, oc, pc, tc)), side)
            == side_lines(racc_finish(a), side) + pick3(side, oc, pc, tc),
        all_hold(racc_finish(a)) ==> all_hold(racc_finish(classify_segment(a, oc, pc, tc))),
{
    if oc.len() == pc.len() && tc.len() == pc.len() {
        lemma_classify_lines(a, oc, pc, tc, pc.len());
        assert(oc.take(pc.len() as int) =~= oc);
        assert(pc.take(pc.len() as int) =~= pc);
        assert(tc.take(pc.len() as int) =~= tc);
    } else if oc == tc {
        lemma_racc_push(a, RegionKind::BothSame, oc, pc, tc);
    } else if oc == pc {
        lemma_racc_push(a, RegionKind::TheirsOnly, oc, pc, tc);
    } else if tc == pc {
        lemma_racc_push(a, RegionKind::OursOnly, oc, pc, tc);
    } else {
        lemma_racc_push(a, RegionKind::Conflict, oc, pc, tc);
    }
}

/// The anchors of `o`, `p`, `t` keep lines equal on all three sides.
pub open spec fn anchors_agree(o: Seq<Seq<char>>, p: Seq<Seq<char>>, t: Seq<Seq<char>>, anc: Seq<(int, int, int)>) -> bool {
    &&& anchors_ok(anc, o.len() as int, p.len() as int, t.len() as int)
    &&& forall|x: int| 0 <= x < anc.len() ==> o[(#[trigger] anc[x]).0] == p[anc[x].1] && t[anc[x].2] == p[anc[x].1]
}

proof fn lemma_region_walk(o: Seq<Seq<char>>, p: Seq<Seq<char>>, t: Seq<Seq<char>>, anc: Seq<(int, int, int)>, k: int)
    requires
        anchors_agree(o, p, t, anc),
        0 <= k <= anc.len(),
    ensures
        forall|side: int| #[trigger] side_lines(racc_finish(region_walk(o, p, t, anc, k)), side)
            == pick3(side, o.take(after(anc, k).0), p.take(after(anc, k).1), t.take(after(anc, k).2)),
        all_hold(racc_finish(region_walk(o, p, t, anc, k))),
    decreases k,
{
    if k == 0 {
        assert forall|side: int| #[trigger] side_lines(racc_finish(region_walk(o, p, t, anc, k)), side)
            == pick3(side, o.take(after(anc, k).0), p.take(after(anc, k).1), t.take(after(anc, k).2)) by {
            assert(Seq::<RegionV>::empty().map_values(|r: RegionV| side_of(r, side)) =~= Seq::<Seq<Seq<char>>>::empty());
            assert(o.take(0) =~= Seq::<Seq<char>>::empty());
            assert(p.take(0) =~= Seq::<Seq<char>>::empty());
            assert(t.take(0) =~= Seq::<Seq<char>>::empty());
        }
    } else {
        lemma_region_walk(o, p, t, anc, k - 1);
        let a = region_walk(o, p, t, anc, k - 1);
        let s = after(anc, k - 1);
        let e = anc[k - 1];
        if k - 1 > 0 {
            assert(anc[k - 2].0 < e.0 && anc[k - 2].1 < e.1 && anc[k - 2].2 < e.2);
        }
        let oc = o.subrange(s.0, e.0);
        let pc = p.subrange(s.1, e.1);
        let tc = t.subrange(s.2, e.2);
        lemma_classify_segment(a, oc, pc, tc);
        let b = classify_segment(a, oc, pc, tc);
        lemma_racc_push(b, RegionKind::Unchanged, seq![p[e.1]], seq![p[e.1]], seq![p[e.1]]);
        assert forall|side: int| #[trigger] side_lines(racc_finish(region_walk(o, p, t, anc, k)), side)
            == pick3(side, o.take(after(anc, k).0), p.take(after(anc, k).1), t.take(after(anc, k).2)) by {
            assert(o.take(e.0 + 1) =~= o.take(s.0) + oc + seq![p[e.1]]);
            assert(p.take(e.1 + 1) =~= p.take(s.1) + pc + seq![p[e.1]]);
            assert(t.take(e.2 + 1) =~= t.take(s.2) + tc + seq![p[e.1]]);
            assert(pick3(side, o.take(s.0), p.take(s.1), t.take(s.2)) + pick3(side, oc, pc, tc) + pick3(side, seq![p[e.1]], seq![p[e.1]], seq![p[e.1]])
                =~= pick3(side, o.take(e.0 + 1), p.take(e.1 + 1), t.take(e.2 + 1)));
        }
    }
}

/// The aligned three-way diff covers each text exactly: the regions' ours lines, in order,
/// make up ours, and likewise base and theirs; and each region's kind is true of it (an
/// unchanged region is the same on all three sides, a one-sided change leaves the other
/// side equal to base, a shared change is the same on both sides).
pub proof fn law_regions_cover_each_side(ours: Seq<char>, base: Seq<char>, theirs: Seq<char>)
    ensures
        side_lines(merge_regions_spec(ours, base, theirs), 0) == lines_incl(ours),
        side_lines(merge_regions_spec(ours, base, theirs), 1) == lines_incl(base),
        side_lines(merge_regions_spec(ours, base, theirs), 2) == lines_incl(theirs),
        concat(side_lines(merge_regions_spec(ours, base, theirs), 0)) == ours,
        concat(side_lines(merge_regions_spec(ours, base, theirs), 1)) == base,
        concat(side_lines(merge_regions_spec(ours, base, theirs), 2)) == theirs,
        all_hold(merge_regions_spec(ours, base, theirs)),
{
    let o = lines_incl(ours);
    let p = lines_incl(base);
    let t = lines_incl(theirs);
    let am = lcs_trace(o, p, 0, 0);
    let bm = lcs_trace(t, p, 0, 0);
    lemma_trace_matching(o, p, 0, 0);
    lemma_trace_matching(t, p, 0, 0);
    assert(p.skip(0) =~= p);
    lemma_anchors(am, bm, o, p, t, p.len() as int);
    let anc = merge_anchors(o, p, t);
    assert forall|x: int| 0 <= x < anc.len() implies o[(#[trigger] anc[x]).0] == p[anc[x].1] && t[anc[x].2] == p[anc[x].1] by {
        assert(am[anc[x].1] is Some && bm[anc[x].1] is Some);
    }
    lemma_region_walk(o, p, t, anc, anc.len() as int);
    let a = region_walk(o, p, t, anc, anc.len() as int);
    let s = after(anc, anc.len() as int);
    if anc.len() > 0 {
        assert(anc[anc.len() - 1].0 < o.len() && anc[anc.len() - 1].1 < p.len() && anc[anc.len() - 1].2 < t.len());
    }
    lemma_classify_segment(a, o.subrange(s.0, o.len() as int), p.subrange(s.1, p.len() as int), t.subrange(s.2, t.len() as int));
    assert(o.take(s.0) + o.subrange(s.0, o.len() as int) =~= o);
    assert(p.take(s.1) + p.subrange(s.1, p.len() as int) =~= p);
    assert(t.take(s.2) + t.subrange(s.2, t.len() as int) =~= t);
    let rs = merge_regions_spec(ours, base, theirs);
    assert(side_lines(rs, 0) == o);
    assert(side_lines(rs, 1) == p);
    assert(side_lines(rs, 2) == t);
    lemma_concat_lines_incl(ours);
    lemma_concat_lines_incl(base);
    lemma_concat_lines_incl(theirs);
}

// ───────────────────────── changes on both sides stay conflicts ─────────────────────────

/// An accumulator with no conflict pending holds no conflict text.
pub open spec fn acc_ok(a: AccV) -> bool {
    !a.in_conflict ==> a.co.len() == 0 && a.cp.len() == 0 && a.ct.len() == 0
}

/// `x` is a prefix of `y`.
pub open spec fn out_prefix(x: Seq<MergeV>, y: Seq<MergeV>) -> bool {
    x.len() <= y.len() && forall|i: int| 0 <= i < x.len() ==> #[trigger] y[i] == x[i]
}

proof fn lemma_prefix_trans(x: Seq<MergeV>, y: Seq<MergeV>, z: Seq<MergeV>)
    requires
        out_prefix(x, y),
        out_prefix(y, z),
    ensures
        out_prefix(x, z),
{
    assert forall|i: int| 0 <= i < x.len() implies #[trigger] z[i] == x[i] by {
        assert(z[i] == y[i]);
    }
}

proof fn lemma_push_ops(a: AccV, o: Seq<char>, p: Seq<char>, t: Seq<char>)
    ensures
        out_prefix(a.out, acc_push_resolved(a, t).out),
        out_prefix(a.out, acc_push_conflict(a, o, p, t).out),
        out_prefix(a.out, acc_finish(a)),
        acc_ok(acc_push_resolved(a, t)) && !acc_push_resolved(a, t).in_conflict <== acc_ok(a),
        acc_ok(acc_push_conflict(a, o, p, t)),
        acc_push_conflict(a, o, p, t).resolved.len() == 0,
{
}

proof fn lemma_decide_lines_ops(a: AccV, oc: Seq<Seq<char>>, pc: Seq<Seq<char>>, tc: Seq<Seq<char>>, n: nat)
    ensures
        out_prefix(a.out, decide_lines(a, oc, pc, tc, n).out),
        acc_ok(a) ==> acc_ok(decide_lines(a, oc, pc, tc, n)),
    decreases n,
{
    if n > 0 {
        lemma_decide_lines_ops(a, oc, pc, tc, (n - 1) as nat);
        let b = decide_lines(a, oc, pc, tc, (n - 1) as nat);
        lemma_push_ops(b, oc[n - 1], pc[n - 1], tc[n - 1]);
        lemma_push_ops(b, oc[n - 1], pc[n - 1], oc[n - 1]);
        lemma_prefix_trans(a.out, b.out, decide_lines(a, oc, pc, tc, n).out);
    }
}

proof fn lemma_decide_segment_ops(a: AccV, oc: Seq<Seq<char>>, pc: Seq<Seq<char>>, tc: Seq<Seq<char>>)
    ensures
        out_prefix(a.out, decide_segment(a, oc, pc, tc).out),
        acc_ok(a) ==> acc_ok(decide_segment(a, oc, pc, tc)),
{
    reveal(decide_segment);
    lemma_decide_lines_ops(a, oc, pc, tc, pc.len());
    lemma_push_ops(a, concat(oc), concat(pc), concat(tc));
    lemma_push_ops(a, concat(oc), concat(pc), concat(oc));
}

proof fn lemma_walk_ops(o: Seq<Seq<char>>, p: Seq<Seq<char>>, t: Seq<Seq<char>>, anc: Seq<(int, int, int)>, j: int, k: int)
    requires
        0 <= j <= k,
    ensures
        out_prefix(merge_walk(o, p, t, anc, j).out, merge_walk(o, p, t, anc, k).out),
        acc_ok(merge_walk(o, p, t, anc, k)),
        !merge_walk(o, p, t, anc, k).in_conflict,
    decreases k,
{
    if k > 0 {
        lemma_walk_ops(o, p, t, anc, if j < k { j } else { k - 1 }, k - 1);
        let a = merge_walk(o, p, t, anc, k - 1);
        let s = after(anc, k - 1);
        let e = anc[k - 1];
        let oc = o.subrange(s.0, e.0);
        let pc = p.subrange(s.1, e.1);
        let tc = t.subrange(s.2, e.2);
        lemma_decide_segment_ops(a, oc, pc, tc);
        let b = decide_segment(a, oc, pc, tc);
        lemma_push_ops(b, p[e.1], p[e.1], p[e.1]);
        if j < k {
            lemma_prefix_trans(merge_walk(o, p, t, anc, j).out, a.out, b.out);
            lemma_prefix_trans(merge_walk(o, p, t, anc, j).out, b.out, merge_walk(o, p, t, anc, k).out);
        } else {
            assert(out_prefix(merge_walk(o, p, t, anc, k).out, merge_walk(o, p, t, anc, k).out));
        }
    }
}

/// A segment whose three sides all differ: of unequal lengths, or of equal lengths and
/// differing on every line (so no line of it can be decided on its own).
pub open spec fn both_sides_changed(oc: Seq<Seq<char>>, pc: Seq<Seq<char>>, tc: Seq<Seq<char>>) -> bool {
    &&& oc != pc && tc != pc && oc != tc
    &&& (oc.len() == pc.len() && tc.len() == pc.len()) ==> forall|i: int| 0 <= i < pc.len()
        ==> #[trigger] oc[i] != pc[i] && tc[i] != pc[i] && oc[i] != tc[i]
}

proof fn lemma_conflict_lines(a: AccV, oc: Seq<Seq<char>>, pc: Seq<Seq<char>>, tc: Seq<Seq<char>>, n: nat)
    requires
        acc_ok(a),
        !a.in_conflict,
        1 <= n <= pc.len(),
        oc.len() == pc.len(),
        tc.len() == pc.len(),
        forall|i: int| 0 <= i < pc.len() ==> #[trigger] oc[i] != pc[i] && tc[i] != pc[i] && oc[i] != tc[i],
    ensures
        decide_lines(a, oc, pc, tc, n).in_conflict,
        decide_lines(a, oc, pc, tc, n).resolved.len() == 0,
        decide_lines(a, oc, pc, tc, n).co == concat(oc.take(n as int)),
        decide_lines(a, oc, pc, tc, n).cp == concat(pc.take(n as int)),
        decide_lines(a, oc, pc, tc, n).ct == concat(tc.take(n as int)),
    decreases n,
{
    assert(oc[n - 1] != pc[n - 1] && tc[n - 1] != pc[n - 1] && oc[n - 1] != tc[n - 1]);
    assert(oc.take(n as int) =~= oc.take(n - 1).push(oc[n - 1]));
    assert(pc.take(n as int) =~= pc.take(n - 1).push(pc[n - 1]));
    assert(tc.take(n as int) =~= tc.take(n - 1).push(tc[n - 1]));
    crate::text::lemma_concat_push(oc.take(n - 1), oc[n - 1]);
    crate::text::lemma_concat_push(pc.take(n - 1), pc[n - 1]);
    crate::text::lemma_concat_push(tc.take(n - 1), tc[n - 1]);
    if n == 1 {
        assert(oc.take(0) =~= Seq::<Seq<char>>::empty());
        assert(pc.take(0) =~= Seq::<Seq<char>>::empty());
        assert(tc.take(0) =~= Seq::<Seq<char>>::empty());
        assert(decide_lines(a, oc, pc, tc, 0) == a);
        assert(a.co + oc[0] =~= oc[0]);
        assert(a.cp + pc[0] =~= pc[0]);
        assert(a.ct + tc[0] =~= tc[0]);
        assert(Seq::<char>::empty() + oc[0] =~= oc[0]);
        assert(Seq::<char>::empty() + pc[0] =~= pc[0]);
        assert(Seq::<char>::empty() + tc[0] =~= tc[0]);
    } else {
        lemma_conflict_lines(a, oc, pc, tc, (n - 1) as nat);
    }
}

/// A segment whose sides all differ is decided as one pending conflict of the three
/// versions.
proof fn lemma_conflict_segment(a: AccV, oc: Seq<Seq<char>>, pc: Seq<Seq<char>>, tc: Seq<Seq<char>>)
    requires
        acc_ok(a),
        !a.in_conflict,
        both_sides_changed(oc, pc, tc),
    ensures
        decide_segment(a, oc, pc, tc).in_conflict,
        decide_segment(a, oc, pc, tc).resolved.len() == 0,
        decide_segment(a, oc, pc, tc).co == concat(oc),
        decide_segment(a, oc, pc, tc).cp == concat(pc),
        decide_segment(a, oc, pc, tc).ct == concat(tc),
{
    reveal(decide_segment);
    if oc.len() == pc.len() && tc.len() == pc.len() {
        if pc.len() == 0 {
            assert(oc =~= pc);
        }
        lemma_conflict_lines(a, oc, pc, tc, pc.len());
        assert(oc.take(pc.len() as int) =~= oc);
        assert(pc.take(pc.len() as int) =~= pc);
        assert(tc.take(pc.len() as int) =~= tc);
    } else {
        assert(a.co + concat(oc) =~= concat(oc));
        assert(a.cp + concat(pc) =~= concat(pc));
        assert(a.ct + concat(tc) =~= concat(tc));
    }
}

/// The sides of segment `k` of a merge: between anchor `k - 1` (or the start) and anchor
/// `k` (or the end), in ours, base and theirs.
pub open spec fn merge_segment(ours: Seq<char>, base: Seq<char>, theirs: Seq<char>, k: int) -> (Seq<Seq<char>>, Seq<Seq<char>>, Seq<Seq<char>>) {
    let o = lines_incl(ours);
    let p = lines_incl(base);
    let t = lines_incl(theirs);
    let anc = merge_anchors(o, p, t);
    let s = after(anc, k);
    let e = if k < anc.len() { anc[k] } else { (o.len() as int, p.len() as int, t.len() as int) };
    (o.subrange(s.0, e.0), p.subrange(s.1, e.1), t.subrange(s.2, e.2))
}

/// The number of anchors of a merge: the lines of base both sides keep.
pub open spec fn merge_anchor_count(ours: Seq<char>, base: Seq<char>, theirs: Seq<char>) -> int {
    merge_anchors(lines_incl(ours), lines_incl(base), lines_incl(theirs)).len() as int
}

/// Where both sides changed the same stretch differently, the merge keeps a conflict with
/// the three versions of that stretch: for any segment between the lines both sides keep
/// whose ours, base and theirs all differ (and, where the three have as many lines, differ
/// on every line), the merge holds a `Conflict` of exactly those three texts. A change on
/// one side is never resolved over a different change on the other.
pub proof fn law_merge3_keeps_two_sided_changes(ours: Seq<char>, base: Seq<char>, theirs: Seq<char>, k: int)
    requires
        0 <= k <= merge_anchor_count(ours, base, theirs),
        both_sides_changed(merge_segment(ours, base, theirs, k).0, merge_segment(ours, base, theirs, k).1, merge_segment(ours, base, theirs, k).2),
    ensures
        merge3_spec(ours, base, theirs).contains(MergeV::Conflict(
            concat(merge_segment(ours, base, theirs, k).0),
            concat(merge_segment(ours, base, theirs, k).1),
            concat(merge_segment(ours, base, theirs, k).2),
        )),
{
    let o = lines_incl(ours);
    let p = lines_incl(base);
    let t = lines_incl(theirs);
    let anc = merge_anchors(o, p, t);
    let n = anc.len() as int;
    let (oc, pc, tc) = merge_segment(ours, base, theirs, k);
    let blk = MergeV::Conflict(concat(oc), concat(pc), concat(tc));
    lemma_walk_ops(o, p, t, anc, k, k);
    let a = merge_walk(o, p, t, anc, k);
    lemma_conflict_segment(a, oc, pc, tc);
    let b = decide_segment(a, oc, pc, tc);
    let fs = after(anc, n);
    let last = decide_segment(merge_walk(o, p, t, anc, n), o.subrange(fs.0, o.len() as int), p.subrange(fs.1, p.len() as int), t.subrange(fs.2, t.len() as int));
    assert(merge3_spec(ours, base, theirs) == acc_finish(last));
    if k == n {
        assert(acc_finish(b).len() == b.out.len() + 1);
        assert(acc_finish(b)[b.out.len() as int] == blk);
    } else {
        let e = anc[k];
        let w = acc_push_resolved(b, p[e.1]);
        assert(w == merge_walk(o, p, t, anc, k + 1));
        assert(w.out[b.out.len() as int] == blk);
        lemma_walk_ops(o, p, t, anc, k + 1, n);
        let m = merge_walk(o, p, t, anc, n);
        lemma_decide_segment_ops(m, o.subrange(fs.0, o.len() as int), p.subrange(fs.1, p.len() as int), t.subrange(fs.2, t.len() as int));
        lemma_push_ops(last, Seq::empty(), Seq::empty(), Seq::empty());
        lemma_prefix_trans(w.out, m.out, last.out);
        lemma_prefix_trans(w.out, last.out, acc_finish(last));
        assert(acc_finish(last)[b.out.len() as int] == blk);
    }
}

} // verus!
