//! The desktop front end's project history: the last project opened and the recent ones.
use vstd::prelude::*;
use crate::repo::{copy_string, strs};

verus! {

/// The most recent projects kept.
pub const MAX_RECENT: usize = 10;

pub struct ProjectHistory {
    pub last_project: Option<String>,
    /// Newest first.
    pub recent_projects: Vec<String>,
}

/// `ps` without `p`, in order.
pub open spec fn without(ps: Seq<Seq<char>>, p: Seq<char>) -> Seq<Seq<char>>
    decreases ps.len(),
{
    if ps.len() == 0 {
        ps
    } else if ps.last() == p {
        without(ps.drop_last(), p)
    } else {
        without(ps.drop_last(), p).push(ps.last())
    }
}

/// The recent list after opening `p`: `p` first, then the others in their order, at most
/// `MAX_RECENT` in all.
pub open spec fn add_project_spec(recent: Seq<Seq<char>>, p: Seq<char>) -> Seq<Seq<char>> {
    let all = seq![p] + without(recent, p);
    if all.len() > MAX_RECENT { all.take(MAX_RECENT as int) } else { all }
}

pub open spec fn no_duplicates(s: Seq<Seq<char>>) -> bool {
    forall|i: int, j: int| 0 <= i < j < s.len() ==> s[i] != s[j]
}

impl ProjectHistory {
    /// Records that the project at `path` was opened: it becomes the last project and moves
    /// to the front of the recent list (once), which keeps at most ten.
    pub fn add_project(&mut self, path: String)
        ensures
            strs(final(self).recent_projects@) == add_project_spec(strs(old(self).recent_projects@), path@),
            final(self).last_project matches Some(l) && l@ == path@,
    {
        let ghost old_v = strs(self.recent_projects@);
        let mut kept: Vec<String> = vec![copy_string(&path)];
        let pc = crate::text::chars_of(path.as_str());
        let mut i: usize = 0;
        while i < self.recent_projects.len()
            invariant
                i <= self.recent_projects.len(),
                old_v == strs(self.recent_projects@),
                pc@ == path@,
                strs(kept@) == seq![path@] + without(old_v.take(i as int), path@),
            decreases self.recent_projects.len() - i,
        {
            assert(old_v.take(i + 1).drop_last() =~= old_v.take(i as int));
            let same = crate::text::eq_str(&crate::text::chars_of(self.recent_projects[i].as_str()), path.as_str());
            if !same {
                let ghost before = strs(kept@);
                kept.push(copy_string(&self.recent_projects[i]));
                assert(strs(kept@) =~= before.push(old_v[i as int]));
            }
            i = i + 1;
        }
        assert(old_v.take(self.recent_projects.len() as int) =~= old_v);
        if kept.len() > MAX_RECENT {
            kept.truncate(MAX_RECENT);
            assert(strs(kept@) =~= (seq![path@] + without(old_v, path@)).take(MAX_RECENT as int));
        }
        self.recent_projects = kept;
        self.last_project = Some(path);
    }
}

proof fn lemma_without_removes(ps: Seq<Seq<char>>, p: Seq<char>)
    ensures
        !without(ps, p).contains(p),
        forall|x: Seq<char>| without(ps, p).contains(x) ==> ps.contains(x),
        no_duplicates(ps) ==> no_duplicates(without(ps, p)),
    decreases ps.len(),
{
    if ps.len() > 0 {
        let q = ps.drop_last();
        lemma_without_removes(q, p);
        assert forall|x: Seq<char>| q.contains(x) implies ps.contains(x) by {
            let k = choose|k: int| 0 <= k < q.len() && q[k] == x;
            assert(ps[k] == x);
        }
        if ps.last() != p {
            let w = without(q, p);
            assert(w.push(ps.last()).last() == ps.last());
            assert forall|x: Seq<char>| w.push(ps.last()).contains(x) implies ps.contains(x) by {
                let k = choose|k: int| 0 <= k < w.push(ps.last()).len() && w.push(ps.last())[k] == x;
                if k < w.len() {
                    assert(w[k] == x);
                    assert(w.contains(x));
                } else {
                    assert(ps[ps.len() - 1] == x);
                }
            }
            if no_duplicates(ps) {
                assert(no_duplicates(q));
                assert(!q.contains(ps.last())) by {
                    if q.contains(ps.last()) {
                        let k = choose|k: int| 0 <= k < q.len() && q[k] == ps.last();
                        assert(ps[k] == ps[ps.len() - 1]);
                    }
                }
                assert(!w.contains(ps.last()));
                assert forall|i: int, j: int| 0 <= i < j < w.push(ps.last()).len() implies w.push(ps.last())[i] != w.push(ps.last())[j] by {
                    if j == w.len() {
                        assert(w.contains(w[i]));
                    }
                }
            }
        }
    }
}

/// The recent list never names a project twice, has at most ten entries, and starts with
/// the project opened last.
pub proof fn law_recent_projects_stay_distinct(recent: Seq<Seq<char>>, p: Seq<char>)
    requires
        no_duplicates(recent),
    ensures
        no_duplicates(add_project_spec(recent, p)),
        add_project_spec(recent, p).len() <= MAX_RECENT,
        add_project_spec(recent, p)[0] == p,
{
    lemma_without_removes(recent, p);
    let w = without(recent, p);
    let all = seq![p] + w;
    assert forall|i: int, j: int| 0 <= i < j < all.len() implies all[i] != all[j] by {
        if i == 0 {
            assert(all[j] == w[j - 1]);
            assert(w.contains(w[j - 1]));
        } else {
            assert(all[i] == w[i - 1] && all[j] == w[j - 1]);
        }
    }
}

} // verus!
