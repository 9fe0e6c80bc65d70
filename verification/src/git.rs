//! Running git: the progress lines of long operations, and the cancellation flag shared
//! between the front end and a running operation.
use vstd::prelude::*;
use crate::text::{trim, index_of, contains, parse_unsigned};
use std::sync::Arc;
use std::sync::atomic::AtomicBool;
use std::sync::atomic::Ordering;

verus! {

/// One progress event of a long operation, read from git's stderr.
#[derive(Debug, Clone)]
pub struct Progress {
    /// Phase name, such as "Receiving objects".
    pub phase: String,
    /// Percentage 0-100, `None` when it cannot be read.
    pub percent: Option<u8>,
    /// The progress line itself, for display as is.
    pub raw: String,
}

/// The longest run of ASCII digits at the end of `s`.
pub open spec fn digit_suffix(s: Seq<char>) -> Seq<char>
    decreases s.len(),
{
    if s.len() > 0 && crate::text::is_digit(s.last()) {
        digit_suffix(s.drop_last()).push(s.last())
    } else {
        Seq::empty()
    }
}

/// The digits right before the first `%`, as a percentage: `None` if there are none or
/// they name more than 100.
pub open spec fn percent_spec(s: Seq<char>) -> Option<u8> {
    let before = s.take(index_of(s, '%'));
    match parse_unsigned(digit_suffix(before), 100) {
        Some(v) => Some(v as u8),
        None => None,
    }
}

/// A progress line: trimmed, it has a non-empty phase before the first `:` and a `%` after
/// it (this keeps `fatal:` and `hint:` lines out).
pub open spec fn progress_spec(line: Seq<char>) -> Option<(Seq<char>, Option<u8>, Seq<char>)> {
    let t = trim(line);
    let i = index_of(t, ':');
    if i >= t.len() {
        None
    } else {
        let phase = trim(t.take(i));
        let rest = t.skip(i + 1);
        if phase.len() == 0 || !contains(rest, "%"@) {
            None
        } else {
            Some((phase, percent_spec(rest), t))
        }
    }
}

/// The digits right before the first `%` (git's progress numbers are ASCII).
fn percent_before_sign(s: &[char]) -> (r: Option<u8>)
    ensures
        r == percent_spec(s@),
{
    let p = crate::text::find_char_from(s, '%', 0);
    proof {
        crate::text::lemma_index_of_from_bounds(s@, '%', 0);
    }
    let mut start = p;
    while start > 0 && '0' <= s[start - 1] && s[start - 1] <= '9'
        invariant
            start <= p <= s.len(),
            digit_suffix(s@.take(p as int)) == digit_suffix(s@.take(start as int)) + s@.subrange(start as int, p as int),
        decreases start,
    {
        assert(s@.take(start as int).drop_last() =~= s@.take(start - 1));
        assert(s@.subrange(start - 1, p as int) =~= seq![s@[start - 1]] + s@.subrange(start as int, p as int));
        assert(digit_suffix(s@.take(start as int)) == digit_suffix(s@.take(start - 1)).push(s@[start - 1]));
        start = start - 1;
    }
    assert(digit_suffix(s@.take(start as int)) =~= Seq::<char>::empty());
    let digits = crate::text::slice_vec(s, start, p);
    assert(digits@ =~= digit_suffix(s@.take(p as int)));
    match crate::text::parse_unsigned_chars(&digits, 100) {
        Some(v) => Some(v as u8),
        None => None,
    }
}

/// Reads a progress line such as `Receiving objects:  45% (450/1000)`.
pub fn parse_progress(line: &str) -> (r: Option<Progress>)
    ensures
        match progress_spec(line@) {
            Some((phase, percent, raw)) => r is Some && r->0.phase@ == phase && r->0.percent == percent && r->0.raw@ == raw,
            None => r is None,
        },
{
    let t = crate::text::trim_vec(&crate::text::chars_of(line));
    let i = crate::text::find_char_from(&t, ':', 0);
    proof {
        crate::text::lemma_index_of_from_bounds(t@, ':', 0);
    }
    if i >= t.len() {
        return None;
    }
    let head = crate::text::slice_vec(&t, 0, i);
    assert(head@ =~= t@.take(i as int));
    let phase = crate::text::trim_vec(&head);
    let rest = crate::text::slice_vec(&t, i + 1, t.len());
    assert(rest@ =~= t@.skip(i + 1));
    if phase.len() == 0 || !crate::text::contains_str(&rest, "%") {
        return None;
    }
    Some(Progress {
        phase: crate::text::string_of(&phase),
        percent: percent_before_sign(&rest),
        raw: crate::text::string_of(&t),
    })
}

/// The segments of `s[..n]` that a `\r` or `\n` has closed (empty ones skipped), and the
/// segment still open.
pub open spec fn segment_scan(s: Seq<char>, n: int) -> (Seq<Seq<char>>, Seq<char>)
    decreases n,
{
    if n <= 0 {
        (Seq::empty(), Seq::empty())
    } else {
        let (done, cur) = segment_scan(s, n - 1);
        let c = s[n - 1];
        if c == '\r' || c == '\n' {
            (if cur.len() > 0 { done.push(cur) } else { done }, Seq::empty())
        } else {
            (done, cur.push(c))
        }
    }
}

/// The pieces of git's stderr between `\r` and `\n` (progress lines are redrawn with
/// `\r` and ended with `\n`), empty ones skipped.
pub open spec fn stderr_segments(s: Seq<char>) -> Seq<Seq<char>> {
    let (done, cur) = segment_scan(s, s.len() as int);
    if cur.len() > 0 { done.push(cur) } else { done }
}

/// The progress events among `segs[..n]`, in order.
pub open spec fn progress_upto(segs: Seq<Seq<char>>, n: int) -> Seq<(Seq<char>, Option<u8>, Seq<char>)>
    decreases n,
{
    if n <= 0 {
        Seq::empty()
    } else {
        match progress_spec(segs[n - 1]) {
            Some(p) => progress_upto(segs, n - 1).push(p),
            None => progress_upto(segs, n - 1),
        }
    }
}

pub open spec fn progress_view(v: Seq<Progress>) -> Seq<(Seq<char>, Option<u8>, Seq<char>)> {
    v.map_values(|p: Progress| (p.phase@, p.percent, p.raw@))
}

/// The progress events in git's stderr text, in order: each piece between `\r` and `\n`
/// that reads as a progress line.
pub fn progress_events(stderr: &str) -> (r: Vec<Progress>)
    ensures
        progress_view(r@) == progress_upto(stderr_segments(stderr@), stderr_segments(stderr@).len() as int),
{
    let cs = crate::text::chars_of(stderr);
    let mut segs: Vec<Vec<char>> = Vec::new();
    let mut cur: Vec<char> = Vec::new();
    let mut i: usize = 0;
    while i < cs.len()
        invariant
            i <= cs.len(),
            cs@ == stderr@,
            (crate::text::views(segs@), cur@) == segment_scan(cs@, i as int),
        decreases cs.len() - i,
    {
        let c = cs[i];
        if c == '\r' || c == '\n' {
            if cur.len() > 0 {
                let ghost before = crate::text::views(segs@);
                segs.push(cur);
                assert(crate::text::views(segs@) =~= before.push(segs@.last()@));
            }
            cur = Vec::new();
        } else {
            cur.push(c);
        }
        i = i + 1;
    }
    if cur.len() > 0 {
        let ghost before = crate::text::views(segs@);
        segs.push(cur);
        assert(crate::text::views(segs@) =~= before.push(segs@.last()@));
    }
    let ghost sv = crate::text::views(segs@);
    assert(sv == stderr_segments(stderr@));
    let mut out: Vec<Progress> = Vec::new();
    let mut k: usize = 0;
    while k < segs.len()
        invariant
            k <= segs.len(),
            sv == crate::text::views(segs@),
            progress_view(out@) == progress_upto(sv, k as int),
        decreases segs.len() - k,
    {
        let line = crate::text::string_of(&segs[k]);
        assert(sv[k as int] == segs@[k as int]@);
        match parse_progress(line.as_str()) {
            Some(p) => {
                let ghost before = progress_view(out@);
                out.push(p);
                assert(progress_view(out@) =~= before.push(progress_spec(sv[k as int])->Some_0));
            },
            None => {},
        }
        k = k + 1;
    }
    out
}

// ───────────────────────── cancellation ─────────────────────────

/// A cancellation token: the front end keeps one and calls `cancel`, a running operation
/// polls `is_cancelled`. Clones share the same flag.
#[derive(Clone)]
pub struct CancelToken(Arc<AtomicBool>);

impl CancelToken {
    /// A token not yet cancelled.
    pub fn new() -> CancelToken {
        CancelToken(Arc::new(AtomicBool::new(false)))
    }

    /// Requests cancellation; a running operation stops at its next poll.
    pub fn cancel(&self) {
        self.0.store(true, Ordering::SeqCst)
    }

    /// Has cancellation been requested?
    pub fn is_cancelled(&self) -> bool {
        self.0.load(Ordering::SeqCst)
    }
}

impl Default for CancelToken {
    fn default() -> (r: CancelToken) {
        CancelToken::new()
    }
}

} // verus!
