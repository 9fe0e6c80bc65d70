//! Longest common subsequence of two line sequences, as a map from base lines to
//! the lines of one side that keep them.
use vstd::prelude::*;

verus! {

/// Length of the longest common subsequence of `a[i..]` and `b[j..]`.
pub open spec fn lcs_len(a: Seq<Seq<char>>, b: Seq<Seq<char>>, i: int, j: int) -> nat
    decreases a.len() - i + b.len() - j,
{
    if i < 0 || j < 0 || i >= a.len() || j >= b.len() {
        0
    } else if a[i] == b[j] {
        1 + lcs_len(a, b, i + 1, j + 1)
    } else {
        let x = lcs_len(a, b, i + 1, j);
        let y = lcs_len(a, b, i, j + 1);
        if x >= y {
            x
        } else {
            y
        }
    }
}

/// The matching read back along the LCS table from `(i, j)`: for every base line `b[j..]`,
/// the line of `a` that keeps it, preferring to skip a line of `a` on ties.
pub open spec fn lcs_trace(a: Seq<Seq<char>>, b: Seq<Seq<char>>, i: int, j: int) -> Seq<Option<nat>>
    decreases a.len() - i + b.len() - j,
{
    if i < 0 || j < 0 || j >= b.len() {
        Seq::new((b.len() - j) as nat, |k: int| None)
    } else if i >= a.len() {
        Seq::new((b.len() - j) as nat, |k: int| None)
    } else if a[i] == b[j] {
        seq![Some(i as nat)] + lcs_trace(a, b, i + 1, j + 1)
    } else if lcs_len(a, b, i + 1, j) >= lcs_len(a, b, i, j + 1) {
        lcs_trace(a, b, i + 1, j)
    } else {
        seq![None::<nat>] + lcs_trace(a, b, i, j + 1)
    }
}

/// A base-indexed map is a common subsequence of `a` and `b` using lines of `a` from `lo` on:
/// matched lines are equal, and the matched `a` indices strictly increase.
pub open spec fn is_matching(a: Seq<Seq<char>>, b: Seq<Seq<char>>, m: Seq<Option<nat>>, lo: int) -> bool {
    &&& m.len() == b.len()
    &&& forall|j: int| 0 <= j < m.len() && (#[trigger] m[j]) is Some ==> lo <= m[j]->0 < a.len() && a[m[j]->0 as int] == b[j]
    &&& forall|j1: int, j2: int| 0 <= j1 < j2 < m.len() && (#[trigger] m[j1]) is Some && (#[trigger] m[j2]) is Some ==> m[j1]->0 < m[j2]->0
}

/// Number of matched entries in a map.
pub open spec fn matched_count(m: Seq<Option<nat>>) -> nat
    decreases m.len(),
{
    if m.len() == 0 {
        0
    } else {
        matched_count(m.drop_last()) + if m.last() is Some { 1nat } else { 0nat }
    }
}

pub proof fn lemma_trace_len(a: Seq<Seq<char>>, b: Seq<Seq<char>>, i: int, j: int)
    requires
        0 <= j <= b.len(),
    ensures
        lcs_trace(a, b, i, j).len() == b.len() - j,
    decreases a.len() - i + b.len() - j,
{
    if i < 0 || j >= b.len() || i >= a.len() {
    } else if a[i] == b[j] {
        lemma_trace_len(a, b, i + 1, j + 1);
    } else if lcs_len(a, b, i + 1, j) >= lcs_len(a, b, i, j + 1) {
        lemma_trace_len(a, b, i + 1, j);
    } else {
        lemma_trace_len(a, b, i, j + 1);
    }
}

/// The trace is a valid matching of `a[i..]` against `b[j..]` (shifted to absolute `a` indices).
pub proof fn lemma_trace_matching(a: Seq<Seq<char>>, b: Seq<Seq<char>>, i: int, j: int)
    requires
        0 <= i,
        0 <= j <= b.len(),
    ensures
        is_matching(a, b.skip(j), lcs_trace(a, b, i, j), i),
    decreases a.len() - i + b.len() - j,
{
    lemma_trace_len(a, b, i, j);
    let t = lcs_trace(a, b, i, j);
    if j >= b.len() || i >= a.len() {
    } else if a[i] == b[j] {
        lemma_trace_matching(a, b, i + 1, j + 1);
        let r = lcs_trace(a, b, i + 1, j + 1);
        assert(b.skip(j).skip(1) =~= b.skip(j + 1));
        assert forall|k: int| 0 <= k < t.len() && (#[trigger] t[k]) is Some implies i <= t[k]->0 < a.len()
            && a[t[k]->0 as int] == b.skip(j)[k] by {
            if k > 0 {
                assert(t[k] == r[k - 1]);
                assert(b.skip(j)[k] == b.skip(j + 1)[k - 1]);
            }
        }
        assert forall|k1: int, k2: int| 0 <= k1 < k2 < t.len() && (#[trigger] t[k1]) is Some && (#[trigger] t[k2]) is Some implies t[k1]->0 < t[k2]->0 by {
            assert(t[k2] == r[k2 - 1]);
            if k1 > 0 {
                assert(t[k1] == r[k1 - 1]);
            }
        }
    } else if lcs_len(a, b, i + 1, j) >= lcs_len(a, b, i, j + 1) {
        lemma_trace_matching(a, b, i + 1, j);
    } else {
        lemma_trace_matching(a, b, i, j + 1);
        let r = lcs_trace(a, b, i, j + 1);
        assert forall|k: int| 0 <= k < t.len() && (#[trigger] t[k]) is Some implies i <= t[k]->0 < a.len()
            && a[t[k]->0 as int] == b.skip(j)[k] by {
            assert(t[k] == r[k - 1]);
            assert(b.skip(j)[k] == b.skip(j + 1)[k - 1]);
        }
        assert forall|k1: int, k2: int| 0 <= k1 < k2 < t.len() && (#[trigger] t[k1]) is Some && (#[trigger] t[k2]) is Some implies t[k1]->0 < t[k2]->0 by {
            assert(t[k2] == r[k2 - 1]);
            assert(t[k1] == r[k1 - 1]);
        }
    }
}

pub proof fn lemma_matched_count_append(x: Seq<Option<nat>>, y: Seq<Option<nat>>)
    ensures
        matched_count(x + y) == matched_count(x) + matched_count(y),
    decreases y.len(),
{
    if y.len() == 0 {
        assert(x + y =~= x);
    } else {
        lemma_matched_count_append(x, y.drop_last());
        assert((x + y).drop_last() =~= x + y.drop_last());
    }
}

pub proof fn lemma_matched_count_none(n: nat)
    ensures
        matched_count(Seq::new(n, |k: int| None::<nat>)) == 0,
    decreases n,
{
    if n > 0 {
        lemma_matched_count_none((n - 1) as nat);
        assert(Seq::new(n, |k: int| None::<nat>).drop_last() =~= Seq::new((n - 1) as nat, |k: int| None::<nat>));
    }
}

/// The trace matches exactly `lcs_len` lines: it is a longest common subsequence.
pub proof fn lemma_trace_count(a: Seq<Seq<char>>, b: Seq<Seq<char>>, i: int, j: int)
    requires
        0 <= i,
        0 <= j <= b.len(),
    ensures
        matched_count(lcs_trace(a, b, i, j)) == lcs_len(a, b, i, j),
    decreases a.len() - i + b.len() - j,
{
    if j >= b.len() || i >= a.len() {
        lemma_matched_count_none((b.len() - j) as nat);
    } else if a[i] == b[j] {
        lemma_trace_count(a, b, i + 1, j + 1);
        lemma_matched_count_append(seq![Some(i as nat)], lcs_trace(a, b, i + 1, j + 1));
        assert(seq![Some(i as nat)].drop_last() =~= Seq::<Option<nat>>::empty());
        assert(matched_count(Seq::<Option<nat>>::empty()) == 0);
        assert(matched_count(seq![Some(i as nat)]) == 1);
    } else if lcs_len(a, b, i + 1, j) >= lcs_len(a, b, i, j + 1) {
        lemma_trace_count(a, b, i + 1, j);
    } else {
        lemma_trace_count(a, b, i, j + 1);
        lemma_matched_count_append(seq![None::<nat>], lcs_trace(a, b, i, j + 1));
        assert(seq![None::<nat>].drop_last() =~= Seq::<Option<nat>>::empty());
        assert(matched_count(Seq::<Option<nat>>::empty()) == 0);
        assert(matched_count(seq![None::<nat>]) == 0);
    }
}

/// Exec equality of two lines.
pub fn line_eq(x: &[char], y: &[char]) -> (r: bool)
    ensures
        r == (x@ == y@),
{
    if x.len() != y.len() {
        return false;
    }
    let mut k: usize = 0;
    while k < x.len()
        invariant
            x.len() == y.len(),
            k <= x.len(),
            forall|m: int| 0 <= m < k ==> x@[m] == y@[m],
        decreases x.len() - k,
    {
        if x[k] != y[k] {
            return false;
        }
        k = k + 1;
    }
    assert(x@ =~= y@);
    true
}

/// For every line of `base`, the line of `side` that keeps it along a longest common
/// subsequence (ties skip a `side` line first), or `None`.
pub fn lcs_map(side: &Vec<Vec<char>>, base: &Vec<Vec<char>>) -> (map: Vec<Option<usize>>)
    ensures
        map@.len() == base@.len(),
        forall|j: int| 0 <= j < map@.len() ==> #[trigger] opt_nat(map@[j]) == lcs_trace(
            crate::text::views(side@),
            crate::text::views(base@),
            0,
            0,
        )[j],
{
    let ghost a = crate::text::views(side@);
    let ghost b = crate::text::views(base@);
    let n = side.len();
    let m = base.len();
    // rows[k] holds the table row for side index n - k: rows[k][j] == lcs_len(a, b, n - k, j).
    let mut rows: Vec<Vec<usize>> = Vec::new();
    let mut last: Vec<usize> = Vec::new();
    let mut j0: usize = 0;
    while j0 < m
        invariant
            j0 <= m,
            last@.len() == j0,
            forall|jj: int| 0 <= jj < j0 ==> #[trigger] last@[jj] == 0,
        decreases m - j0,
    {
        last.push(0);
        j0 = j0 + 1;
    }
    last.push(0);
    proof {
        assert forall|jj: int| 0 <= jj <= m implies #[trigger] last@[jj] as int == lcs_len(a, b, n as int, jj) by {}
    }
    rows.push(last);
    let mut k: usize = 0;
    while k < n
        invariant
            k <= n,
            n == side.len(),
            m == base.len(),
            a == crate::text::views(side@),
            b == crate::text::views(base@),
            rows@.len() == k + 1,
            forall|kk: int| 0 <= kk <= k ==> (#[trigger] rows@[kk])@.len() == m + 1,
            forall|kk: int, jj: int| 0 <= kk <= k && 0 <= jj <= m ==> (#[trigger] rows@[kk]@[jj]) as int == lcs_len(a, b, n - kk, jj),
            forall|kk: int, jj: int| 0 <= kk <= k && 0 <= jj <= m ==> (#[trigger] rows@[kk]@[jj]) <= n,
        decreases n - k,
    {
        let i = n - k - 1;
        let mut row: Vec<usize> = Vec::new();
        let mut z: usize = 0;
        while z < m
            invariant
                z <= m,
                row@.len() == z,
                forall|jj: int| 0 <= jj < z ==> #[trigger] row@[jj] == 0,
            decreases m - z,
        {
            row.push(0);
            z = z + 1;
        }
        row.push(0);
        proof {
            assert(row@[m as int] as int == lcs_len(a, b, i as int, m as int));
        }
        let mut j = m;
        while j > 0
            invariant
                j <= m,
                i == n - k - 1,
                k < n,
                n == side.len(),
                m == base.len(),
                a == crate::text::views(side@),
                b == crate::text::views(base@),
                row@.len() == m + 1,
                rows@.len() == k + 1,
                forall|kk: int| 0 <= kk <= k ==> (#[trigger] rows@[kk])@.len() == m + 1,
                forall|kk: int, jj: int| 0 <= kk <= k && 0 <= jj <= m ==> (#[trigger] rows@[kk]@[jj]) as int == lcs_len(a, b, n - kk, jj),
                forall|kk: int, jj: int| 0 <= kk <= k && 0 <= jj <= m ==> (#[trigger] rows@[kk]@[jj]) <= n,
                row@[m as int] == 0,
                forall|jj: int| j <= jj <= m ==> #[trigger] row@[jj] as int == lcs_len(a, b, i as int, jj),
                forall|jj: int| j <= jj <= m ==> #[trigger] row@[jj] <= n - i,
            decreases j,
        {
            let jj = j - 1;
            let below = &rows[k];
            proof {
                lemma_lcs_le(a, b, i + 1, jj + 1);
                assert(rows@[k as int]@[jj + 1] as int == lcs_len(a, b, n - k, jj + 1));
            }
            let v = if line_eq(&side[i], &base[jj]) {
                below[jj + 1] + 1
            } else {
                let x = below[jj];
                let y = row[jj + 1];
                if x >= y {
                    x
                } else {
                    y
                }
            };
            proof {
                assert(a[i as int] == side@[i as int]@);
                assert(b[jj as int] == base@[jj as int]@);
                assert(rows@[k as int]@[jj + 1] as int == lcs_len(a, b, n - k, jj + 1));
                assert(rows@[k as int]@[jj as int] as int == lcs_len(a, b, n - k, jj as int));
                lemma_lcs_le(a, b, i + 1, jj as int);
                lemma_lcs_le(a, b, i + 1, jj + 1);
            }
            row.set(jj, v);
            j = jj;
        }
        proof {
            assert(row@[m as int] as int == lcs_len(a, b, i as int, m as int));
        }
        rows.push(row);
        k = k + 1;
    }
    // Read the matching back from (0, 0).
    let mut map: Vec<Option<usize>> = Vec::new();
    let mut mi: usize = 0;
    let mut mj: usize = 0;
    proof {
        lemma_trace_len(a, b, 0, 0);
    }
    while mi < n && mj < m
        invariant
            mi <= n,
            mj <= m,
            n == side.len(),
            m == base.len(),
            a == crate::text::views(side@),
            b == crate::text::views(base@),
            rows@.len() == n + 1,
            forall|kk: int| 0 <= kk <= n ==> (#[trigger] rows@[kk])@.len() == m + 1,
            forall|kk: int, jj: int| 0 <= kk <= n && 0 <= jj <= m ==> (#[trigger] rows@[kk]@[jj]) as int == lcs_len(a, b, n - kk, jj),
            map@.len() == mj,
            lcs_trace(a, b, 0, 0) == map_opt(map@) + lcs_trace(a, b, mi as int, mj as int),
        decreases n - mi + m - mj,
    {
        if line_eq(&side[mi], &base[mj]) {
            proof {
                assert(a[mi as int] == b[mj as int]);
                assert(lcs_trace(a, b, mi as int, mj as int) == seq![Some(mi as nat)] + lcs_trace(a, b, mi + 1, mj + 1));
                assert(map_opt(map@.push(Some(mi))) =~= map_opt(map@).push(Some(mi as nat)));
            }
            map.push(Some(mi));
            mi = mi + 1;
            mj = mj + 1;
        } else if rows[n - mi - 1][mj] >= rows[n - mi][mj + 1] {
            proof {
                assert(a[mi as int] != b[mj as int]);
            }
            mi = mi + 1;
        } else {
            proof {
                assert(a[mi as int] != b[mj as int]);
                assert(lcs_trace(a, b, mi as int, mj as int) == seq![None::<nat>] + lcs_trace(a, b, mi as int, mj + 1));
                assert(map_opt(map@.push(None)) =~= map_opt(map@).push(None::<nat>));
            }
            map.push(None);
            mj = mj + 1;
        }
    }
    let ghost rest = lcs_trace(a, b, mi as int, mj as int);
    proof {
        lemma_trace_len(a, b, mi as int, mj as int);
    }
    while mj < m
        invariant
            mj <= m,
            m == base.len(),
            map@.len() == mj,
            lcs_trace(a, b, 0, 0) == map_opt(map@) + Seq::new((m - mj) as nat, |q: int| None::<nat>),
        decreases m - mj,
    {
        proof {
            assert(map_opt(map@.push(None)) =~= map_opt(map@).push(None::<nat>));
            assert(map_opt(map@) + Seq::new((m - mj) as nat, |q: int| None::<nat>) =~= map_opt(map@.push(None)) + Seq::new((m - mj - 1) as nat, |q: int| None::<nat>));
        }
        map.push(None);
        mj = mj + 1;
    }
    proof {
        assert(lcs_trace(a, b, 0, 0) =~= map_opt(map@));
    }
    map
}

pub open spec fn opt_nat(o: Option<usize>) -> Option<nat> {
    match o {
        Some(x) => Some(x as nat),
        None => None,
    }
}

pub open spec fn map_opt(s: Seq<Option<usize>>) -> Seq<Option<nat>> {
    s.map_values(|o: Option<usize>| opt_nat(o))
}

/// The LCS of `a[i..]` and `b[j..]` is at most the length of `a[i..]`.
pub proof fn lemma_lcs_le(a: Seq<Seq<char>>, b: Seq<Seq<char>>, i: int, j: int)
    requires
        0 <= i,
        0 <= j,
    ensures
        lcs_len(a, b, i, j) <= if a.len() >= i { a.len() - i } else { 0 },
    decreases a.len() - i + b.len() - j,
{
    if i >= a.len() || j >= b.len() {
    } else if a[i] == b[j] {
        lemma_lcs_le(a, b, i + 1, j + 1);
    } else {
        lemma_lcs_le(a, b, i + 1, j);
        lemma_lcs_le(a, b, i, j + 1);
    }
}

proof fn lemma_count_first(m: Seq<Option<nat>>)
    requires
        m.len() > 0,
    ensures
        matched_count(m) == matched_count(m.drop_first()) + if m[0] is Some { 1nat } else { 0nat },
{
    lemma_matched_count_append(seq![m[0]], m.drop_first());
    assert(seq![m[0]] + m.drop_first() =~= m);
    assert(seq![m[0]].drop_last() =~= Seq::<Option<nat>>::empty());
    assert(matched_count(Seq::<Option<nat>>::empty()) == 0);
}

proof fn lemma_count_unset(m: Seq<Option<nat>>, p: int)
    requires
        0 <= p < m.len(),
        m[p] is Some,
    ensures
        matched_count(m.update(p, None)) + 1 == matched_count(m),
    decreases m.len(),
{
    if p == m.len() - 1 {
        assert(m.update(p, None).drop_last() =~= m.drop_last());
    } else {
        lemma_count_unset(m.drop_last(), p);
        assert(m.update(p, None).drop_last() =~= m.drop_last().update(p, None));
    }
}

proof fn lemma_count_all_none(m: Seq<Option<nat>>)
    requires
        forall|k: int| 0 <= k < m.len() ==> (#[trigger] m[k]) is None,
    ensures
        matched_count(m) == 0,
    decreases m.len(),
{
    if m.len() > 0 {
        lemma_count_all_none(m.drop_last());
    }
}

/// No common subsequence of `a[i..]` and `b[j..]` is longer than `lcs_len`.
proof fn lemma_lcs_upper(a: Seq<Seq<char>>, b: Seq<Seq<char>>, i: int, j: int, m: Seq<Option<nat>>)
    requires
        0 <= i,
        0 <= j <= b.len(),
        is_matching(a, b.skip(j), m, i),
    ensures
        matched_count(m) <= lcs_len(a, b, i, j),
    decreases a.len() - i + b.len() - j,
{
    if j >= b.len() {
        lemma_count_all_none(m);
    } else if i >= a.len() {
        assert forall|k: int| 0 <= k < m.len() implies (#[trigger] m[k]) is None by {
            if m[k] is Some {
                assert(i <= m[k]->0 < a.len());
            }
        }
        lemma_count_all_none(m);
    } else {
        let rest = m.drop_first();
        lemma_count_first(m);
        assert(b.skip(j).drop_first() =~= b.skip(j + 1));
        assert(forall|k: int| 0 <= k < rest.len() ==> #[trigger] rest[k] == m[k + 1]);
        assert(forall|k: int| 0 <= k < rest.len() ==> #[trigger] b.skip(j + 1)[k] == b.skip(j)[k + 1]);
        // `rest` matches `a[i..]` against `b[j + 1..]`.
        assert(is_matching(a, b.skip(j + 1), rest, i)) by {
            assert forall|k1: int, k2: int| 0 <= k1 < k2 < rest.len() && (#[trigger] rest[k1]) is Some && (#[trigger] rest[k2]) is Some implies rest[k1]->0 < rest[k2]->0 by {
                assert(m[k1 + 1] is Some && m[k2 + 1] is Some);
            }
        }
        if m[0] is Some {
            let x = m[0]->0;
            // Every later match lies beyond `x`, so beyond `i`.
            assert forall|k: int| 0 <= k < rest.len() && (#[trigger] rest[k]) is Some implies i + 1 <= rest[k]->0 by {
                assert(m[0] is Some && m[k + 1] is Some);
            }
            if x == i {
                assert(a[i] == b[j]);
                lemma_lcs_upper(a, b, i + 1, j + 1, rest);
            } else if a[i] == b[j] {
                lemma_lcs_upper(a, b, i + 1, j + 1, rest);
            } else {
                assert(is_matching(a, b.skip(j), m, i + 1));
                lemma_lcs_upper(a, b, i + 1, j, m);
            }
        } else if a[i] != b[j] {
            lemma_lcs_upper(a, b, i, j + 1, rest);
        } else if exists|k: int| 0 <= k < rest.len() && #[trigger] rest[k] == Some(i as nat) {
            // Match `b[j]` to `a[i]` instead of the later base line that took it.
            let k = choose|k: int| 0 <= k < rest.len() && #[trigger] rest[k] == Some(i as nat);
            let r2 = rest.update(k, None);
            lemma_count_unset(rest, k);
            assert forall|q: int| 0 <= q < r2.len() && (#[trigger] r2[q]) is Some implies i + 1 <= r2[q]->0 by {
                if q != k {
                    if q < k {
                        assert(rest[q] is Some && rest[k] is Some);
                    } else {
                        assert(rest[k] is Some && rest[q] is Some);
                    }
                }
            }
            assert(is_matching(a, b.skip(j + 1), r2, i + 1)) by {
                assert forall|k1: int, k2: int| 0 <= k1 < k2 < r2.len() && (#[trigger] r2[k1]) is Some && (#[trigger] r2[k2]) is Some implies r2[k1]->0 < r2[k2]->0 by {
                    assert(rest[k1] is Some && rest[k2] is Some);
                }
            }
            lemma_lcs_upper(a, b, i + 1, j + 1, r2);
        } else {
            assert forall|q: int| 0 <= q < rest.len() && (#[trigger] rest[q]) is Some implies i + 1 <= rest[q]->0 by {
                assert(rest[q] != Some(i as nat));
            }
            lemma_lcs_upper(a, b, i + 1, j + 1, rest);
        }
    }
}

/// The map `lcs_map` reads back is a longest common subsequence: it matches equal lines in
/// increasing order, and no other such matching of the two sequences matches more lines.
pub proof fn law_lcs_trace_is_longest(a: Seq<Seq<char>>, b: Seq<Seq<char>>, m: Seq<Option<nat>>)
    requires
        is_matching(a, b, m, 0),
    ensures
        is_matching(a, b, lcs_trace(a, b, 0, 0), 0),
        matched_count(m) <= matched_count(lcs_trace(a, b, 0, 0)),
{
    assert(b.skip(0) =~= b);
    lemma_trace_matching(a, b, 0, 0);
    lemma_trace_count(a, b, 0, 0);
    lemma_lcs_upper(a, b, 0, 0, m);
}

} // verus!
