//! Conflict resolution: a conflicted file is parsed into segments, the "magic wand"
//! classifies each conflict block, and the file is rebuilt from the chosen versions.
//!
//! The three versions come from git's zdiff3 conflict markers, so parsing the
//! markers is enough; the line-level refinement inside a block is `diff3::merge3`.
use vstd::prelude::*;
use crate::text::{lines_incl, starts_with, concat, lemma_concat_lines_incl, lemma_concat_push};
use crate::diff3::{Merge, MergeV, merge3, merge3_spec, merge_views};
use crate::repo::{Repo, Reply, Request, RequestV, Step, Flow, Outcome, step_view, flow_view, map_done, then, run_git, run_read, run_effect, replies_view, strs, s, path_join, unit_spec};

verus! {

/// A piece of a file: text outside conflicts, or a conflict block.
#[derive(Debug, Clone, PartialEq)]
pub enum Segment {
    /// Text outside any conflict block.
    Clean(String),
    /// Text that the line-level magic decided inside a conflict block.
    AutoResolved(String),
    Conflict(ConflictHunk),
}

/// The three versions of one conflict block.
#[derive(Debug, Clone, PartialEq)]
pub struct ConflictHunk {
    pub ours: String,
    pub base: String,
    pub theirs: String,
}

/// The magic wand's verdict on a conflict block.
#[derive(Debug, Clone, Copy, PartialEq, Eq, Structural)]
pub enum Resolution {
    /// Ours equals base: take theirs.
    AutoTheirs,
    /// Theirs equals base: take ours.
    AutoOurs,
    /// Both changed: a person decides.
    NeedsUser,
}

/// The version picked for a conflict block when the file is rebuilt.
#[derive(Debug, Clone, Copy, PartialEq, Eq, Structural)]
pub enum Choice {
    Ours,
    Theirs,
    Base,
}

/// A segment as character sequences.
pub enum SegV {
    Clean(Seq<char>),
    Auto(Seq<char>),
    Conflict(Seq<char>, Seq<char>, Seq<char>),
}

impl Segment {
    pub open spec fn view(&self) -> SegV {
        match self {
            Segment::Clean(t) => SegV::Clean(t@),
            Segment::AutoResolved(t) => SegV::Auto(t@),
            Segment::Conflict(h) => SegV::Conflict(h.ours@, h.base@, h.theirs@),
        }
    }
}

pub open spec fn seg_views(v: Seq<Segment>) -> Seq<SegV> {
    v.map_values(|s: Segment| s.view())
}

// ───────────────────────── magic wand ─────────────────────────

/// Block-level verdict on three versions.
pub open spec fn magic_spec(ours: Seq<char>, base: Seq<char>, theirs: Seq<char>) -> Resolution {
    if ours == base {
        Resolution::AutoTheirs
    } else if theirs == base {
        Resolution::AutoOurs
    } else {
        Resolution::NeedsUser
    }
}

pub open spec fn auto_choice_spec(r: Resolution) -> Option<Choice> {
    match r {
        Resolution::AutoOurs => Some(Choice::Ours),
        Resolution::AutoTheirs => Some(Choice::Theirs),
        Resolution::NeedsUser => None,
    }
}

/// A merge block as a segment.
pub open spec fn merge_seg(m: MergeV) -> SegV {
    match m {
        MergeV::Resolved(t) => SegV::Auto(t),
        MergeV::Conflict(o, b, t) => SegV::Conflict(o, b, t),
    }
}

/// The line-level refinement of a block.
pub open spec fn refine_spec(ours: Seq<char>, base: Seq<char>, theirs: Seq<char>) -> Seq<SegV> {
    merge3_spec(ours, base, theirs).map_values(|m: MergeV| merge_seg(m))
}

impl ConflictHunk {
    /// Block-level magic wand: can the block be decided from its three versions alone?
    pub fn magic(&self) -> (r: Resolution)
        ensures
            r == magic_spec(self.ours@, self.base@, self.theirs@),
    {
        if self.ours == self.base {
            Resolution::AutoTheirs
        } else if self.theirs == self.base {
            Resolution::AutoOurs
        } else {
            Resolution::NeedsUser
        }
    }

    /// Line-level magic wand: a line-level three-way merge inside the block; lines that
    /// only one side changed are decided, the rest stay conflicts.
    pub fn refine(&self) -> (r: Vec<Segment>)
        ensures
            seg_views(r@) == refine_spec(self.ours@, self.base@, self.theirs@),
    {
        let ms = merge3(self.ours.as_str(), self.base.as_str(), self.theirs.as_str());
        let mut out: Vec<Segment> = Vec::new();
        let mut i: usize = 0;
        while i < ms.len()
            invariant
                i <= ms@.len(),
                merge_views(ms@) == merge3_spec(self.ours@, self.base@, self.theirs@),
                seg_views(out@) == merge_views(ms@).take(i as int).map_values(|m: MergeV| merge_seg(m)),
            decreases ms@.len() - i,
        {
            let ghost before = seg_views(out@);
            let seg = match &ms[i] {
                Merge::Resolved(t) => Segment::AutoResolved(t.clone()),
                Merge::Conflict { ours, base, theirs } => Segment::Conflict(
                    ConflictHunk { ours: ours.clone(), base: base.clone(), theirs: theirs.clone() },
                ),
            };
            assert(seg.view() == merge_seg(merge_views(ms@)[i as int]));
            out.push(seg);
            assert(seg_views(out@) =~= before.push(seg.view()));
            assert(merge_views(ms@).take(i + 1).map_values(|m: MergeV| merge_seg(m)) =~= merge_views(ms@).take(
                i as int,
            ).map_values(|m: MergeV| merge_seg(m)).push(merge_seg(merge_views(ms@)[i as int])));
            i = i + 1;
        }
        assert(merge_views(ms@).take(ms@.len() as int) =~= merge_views(ms@));
        out
    }
}

impl Resolution {
    /// The choice the magic wand makes by itself, if any.
    pub fn auto_choice(self) -> (r: Option<Choice>)
        ensures
            r == auto_choice_spec(self),
    {
        match self {
            Resolution::AutoOurs => Some(Choice::Ours),
            Resolution::AutoTheirs => Some(Choice::Theirs),
            Resolution::NeedsUser => None,
        }
    }
}

// ───────────────────────── parsing the markers ─────────────────────────

/// Where the parser is: outside a block, or in one of its three sections.
#[derive(Clone, Copy, PartialEq, Eq, Structural)]
pub enum ParseMode {
    Outside,
    Ours,
    Base,
    Theirs,
}

/// Parser state: the segments so far, pending clean text, and the open block's sections.
pub struct ParseState {
    pub mode: ParseMode,
    pub segs: Seq<SegV>,
    pub clean: Seq<char>,
    pub o: Seq<char>,
    pub b: Seq<char>,
    pub t: Seq<char>,
}

pub open spec fn flush_clean(segs: Seq<SegV>, clean: Seq<char>) -> Seq<SegV> {
    if clean.len() > 0 {
        segs.push(SegV::Clean(clean))
    } else {
        segs
    }
}

/// One line through the parser; marker lines themselves are dropped.
pub open spec fn parse_step(s: ParseState, l: Seq<char>) -> ParseState {
    match s.mode {
        ParseMode::Outside => if starts_with(l, "<<<<<<<"@) {
            ParseState {
                mode: ParseMode::Ours,
                segs: flush_clean(s.segs, s.clean),
                clean: Seq::empty(),
                o: Seq::empty(),
                b: Seq::empty(),
                t: Seq::empty(),
            }
        } else {
            ParseState { clean: s.clean + l, ..s }
        },
        ParseMode::Ours => if starts_with(l, "|||||||"@) {
            ParseState { mode: ParseMode::Base, ..s }
        } else {
            ParseState { o: s.o + l, ..s }
        },
        ParseMode::Base => if starts_with(l, "======="@) {
            ParseState { mode: ParseMode::Theirs, ..s }
        } else {
            ParseState { b: s.b + l, ..s }
        },
        ParseMode::Theirs => if starts_with(l, ">>>>>>>"@) {
            ParseState {
                mode: ParseMode::Outside,
                segs: s.segs.push(SegV::Conflict(s.o, s.b, s.t)),
                ..s
            }
        } else {
            ParseState { t: s.t + l, ..s }
        },
    }
}

pub open spec fn parse_start() -> ParseState {
    ParseState {
        mode: ParseMode::Outside,
        segs: Seq::empty(),
        clean: Seq::empty(),
        o: Seq::empty(),
        b: Seq::empty(),
        t: Seq::empty(),
    }
}

/// The parser after the first `n` lines.
pub open spec fn parse_lines(ls: Seq<Seq<char>>, n: nat) -> ParseState
    decreases n,
{
    if n == 0 {
        parse_start()
    } else {
        parse_step(parse_lines(ls, (n - 1) as nat), ls[n - 1])
    }
}

/// End of input: a block left open is kept with what it has; then pending clean text.
pub open spec fn parse_end(s: ParseState) -> Seq<SegV> {
    if s.mode != ParseMode::Outside {
        flush_clean(s.segs.push(SegV::Conflict(s.o, s.b, s.t)), s.clean)
    } else {
        flush_clean(s.segs, s.clean)
    }
}

/// The segments of a zdiff3-style conflicted text.
pub open spec fn parse_conflicts_spec(text: Seq<char>) -> Seq<SegV> {
    let ls = lines_incl(text);
    parse_end(parse_lines(ls, ls.len()))
}

fn seg_clean(clean: &Vec<char>) -> (s: Segment)
    ensures
        s.view() == SegV::Clean(clean@),
{
    Segment::Clean(crate::text::string_of(clean))
}

/// Parses a zdiff3-style conflicted file into segments; marker lines are dropped.
pub fn parse_conflicts(text: &str) -> (r: Vec<Segment>)
    ensures
        seg_views(r@) == parse_conflicts_spec(text@),
{
    let ls = crate::text::lines_incl_of(&crate::text::chars_of(text));
    let ghost lv = crate::text::views(ls@);
    let mut mode = ParseMode::Outside;
    let mut segs: Vec<Segment> = Vec::new();
    let mut clean: Vec<char> = Vec::new();
    let mut o: Vec<char> = Vec::new();
    let mut b: Vec<char> = Vec::new();
    let mut t: Vec<char> = Vec::new();
    let mut i: usize = 0;
    assert(seg_views(segs@) =~= Seq::<SegV>::empty());
    while i < ls.len()
        invariant
            i <= ls@.len(),
            lv == crate::text::views(ls@),
            lv == lines_incl(text@),
            (ParseState { mode, segs: seg_views(segs@), clean: clean@, o: o@, b: b@, t: t@ }) == parse_lines(lv, i as nat),
        decreases ls@.len() - i,
    {
        let l = &ls[i];
        assert(lv[i as int] == l@);
        let ghost before = seg_views(segs@);
        match mode {
            ParseMode::Outside => {
                if crate::text::starts_with_str(l, "<<<<<<<") {
                    if clean.len() > 0 {
                        segs.push(seg_clean(&clean));
                        assert(seg_views(segs@) =~= before.push(SegV::Clean(clean@)));
                    }
                    clean = Vec::new();
                    o = Vec::new();
                    b = Vec::new();
                    t = Vec::new();
                    mode = ParseMode::Ours;
                } else {
                    crate::text::push_chars(&mut clean, l);
                }
            },
            ParseMode::Ours => {
                if crate::text::starts_with_str(l, "|||||||") {
                    mode = ParseMode::Base;
                } else {
                    crate::text::push_chars(&mut o, l);
                }
            },
            ParseMode::Base => {
                if crate::text::starts_with_str(l, "=======") {
                    mode = ParseMode::Theirs;
                } else {
                    crate::text::push_chars(&mut b, l);
                }
            },
            ParseMode::Theirs => {
                if crate::text::starts_with_str(l, ">>>>>>>") {
                    let h = ConflictHunk {
                        ours: crate::text::string_of(&o),
                        base: crate::text::string_of(&b),
                        theirs: crate::text::string_of(&t),
                    };
                    segs.push(Segment::Conflict(h));
                    assert(seg_views(segs@) =~= before.push(SegV::Conflict(o@, b@, t@)));
                    mode = ParseMode::Outside;
                } else {
                    crate::text::push_chars(&mut t, l);
                }
            },
        }
        i = i + 1;
    }
    let ghost before = seg_views(segs@);
    if mode != ParseMode::Outside {
        let h = ConflictHunk {
            ours: crate::text::string_of(&o),
            base: crate::text::string_of(&b),
            theirs: crate::text::string_of(&t),
        };
        segs.push(Segment::Conflict(h));
        assert(seg_views(segs@) =~= before.push(SegV::Conflict(o@, b@, t@)));
    }
    let ghost mid = seg_views(segs@);
    if clean.len() > 0 {
        segs.push(seg_clean(&clean));
        assert(seg_views(segs@) =~= mid.push(SegV::Clean(clean@)));
    }
    segs
}

// ───────────────────────── refinement and rebuild ─────────────────────────

/// What one segment becomes under line-level refinement.
pub open spec fn refine_piece(s: SegV) -> Seq<SegV> {
    match s {
        SegV::Conflict(o, b, t) => refine_spec(o, b, t),
        _ => seq![s],
    }
}

pub open spec fn refine_segments_spec(segs: Seq<SegV>) -> Seq<SegV>
    decreases segs.len(),
{
    if segs.len() == 0 {
        Seq::empty()
    } else {
        refine_segments_spec(segs.drop_last()) + refine_piece(segs.last())
    }
}

/// Runs the line-level magic inside every conflict block; other segments are kept.
pub fn refine_segments(segments: Vec<Segment>) -> (r: Vec<Segment>)
    ensures
        seg_views(r@) == refine_segments_spec(seg_views(segments@)),
{
    let mut out: Vec<Segment> = Vec::new();
    let mut i: usize = 0;
    assert(seg_views(out@) =~= refine_segments_spec(seg_views(segments@).take(0)));
    while i < segments.len()
        invariant
            i <= segments@.len(),
            seg_views(out@) == refine_segments_spec(seg_views(segments@).take(i as int)),
        decreases segments@.len() - i,
    {
        let ghost before = seg_views(out@);
        let ghost sv = seg_views(segments@);
        assert(sv.take(i + 1).drop_last() =~= sv.take(i as int));
        match &segments[i] {
            Segment::Conflict(h) => {
                let mut pieces = h.refine();
                let ghost pv = seg_views(pieces@);
                out.append(&mut pieces);
                assert(seg_views(out@) =~= before + pv);
            },
            Segment::Clean(t) => {
                out.push(Segment::Clean(t.clone()));
                assert(seg_views(out@) =~= before + seq![sv[i as int]]);
            },
            Segment::AutoResolved(t) => {
                out.push(Segment::AutoResolved(t.clone()));
                assert(seg_views(out@) =~= before + seq![sv[i as int]]);
            },
        }
        i = i + 1;
    }
    assert(seg_views(segments@).take(segments@.len() as int) =~= seg_views(segments@));
    out
}

/// The `ci`-th choice, `Ours` where the list is too short.
pub open spec fn choice_at(choices: Seq<Choice>, ci: int) -> Choice {
    if 0 <= ci < choices.len() {
        choices[ci]
    } else {
        Choice::Ours
    }
}

pub open spec fn pick(c: Choice, o: Seq<char>, b: Seq<char>, t: Seq<char>) -> Seq<char> {
    match c {
        Choice::Ours => o,
        Choice::Theirs => t,
        Choice::Base => b,
    }
}

/// The text of `segs[i..]`, the `k`-th conflict block taking `choice_at(choices, ci + k)`.
pub open spec fn rebuild_from(segs: Seq<SegV>, choices: Seq<Choice>, i: int, ci: int) -> Seq<char>
    decreases segs.len() - i,
{
    if i < 0 || i >= segs.len() {
        Seq::empty()
    } else {
        match segs[i] {
            SegV::Clean(t) => t + rebuild_from(segs, choices, i + 1, ci),
            SegV::Auto(t) => t + rebuild_from(segs, choices, i + 1, ci),
            SegV::Conflict(o, b, t) => pick(choice_at(choices, ci), o, b, t) + rebuild_from(segs, choices, i + 1, ci + 1),
        }
    }
}

pub open spec fn rebuild_spec(segs: Seq<SegV>, choices: Seq<Choice>) -> Seq<char> {
    rebuild_from(segs, choices, 0, 0)
}

/// Rebuilds the file text: each conflict block takes its choice, in order; blocks
/// beyond the list of choices take ours.
pub fn rebuild(segments: &[Segment], choices: &[Choice]) -> (r: String)
    ensures
        r@ == rebuild_spec(seg_views(segments@), choices@),
{
    let ghost sv = seg_views(segments@);
    let mut out: Vec<char> = Vec::new();
    let mut ci: usize = 0;
    let mut i: usize = 0;
    while i < segments.len()
        invariant
            i <= segments@.len(),
            ci <= i,
            sv == seg_views(segments@),
            out@ + rebuild_from(sv, choices@, i as int, ci as int) == rebuild_spec(sv, choices@),
        decreases segments@.len() - i,
    {
        let ghost before = out@;
        match &segments[i] {
            Segment::Clean(t) => {
                crate::text::push_chars(&mut out, &crate::text::chars_of(t.as_str()));
            },
            Segment::AutoResolved(t) => {
                crate::text::push_chars(&mut out, &crate::text::chars_of(t.as_str()));
            },
            Segment::Conflict(h) => {
                let c = if ci < choices.len() { choices[ci] } else { Choice::Ours };
                let chosen = match c {
                    Choice::Ours => &h.ours,
                    Choice::Theirs => &h.theirs,
                    Choice::Base => &h.base,
                };
                crate::text::push_chars(&mut out, &crate::text::chars_of(chosen.as_str()));
                ci = ci + 1;
            },
        }
        assert(before + rebuild_from(sv, choices@, i as int, (if sv[i as int] is Conflict { ci - 1 } else { ci as int }))
            =~= out@ + rebuild_from(sv, choices@, i + 1, ci as int));
        i = i + 1;
    }
    assert(out@ + Seq::<char>::empty() =~= out@);
    crate::text::string_of(&out)
}

// ───────────────────────── laws ─────────────────────────

/// The parser over lines that hold no `<<<<<<<` marker only gathers clean text.
proof fn lemma_parse_marker_free(ls: Seq<Seq<char>>, n: nat)
    requires
        n <= ls.len(),
        forall|k: int| 0 <= k < ls.len() ==> !starts_with(#[trigger] ls[k], "<<<<<<<"@),
    ensures
        parse_lines(ls, n) == (ParseState {
            mode: ParseMode::Outside,
            segs: Seq::empty(),
            clean: concat(ls.take(n as int)),
            o: Seq::empty(),
            b: Seq::empty(),
            t: Seq::empty(),
        }),
    decreases n,
{
    if n == 0 {
        assert(concat(ls.take(0)) =~= Seq::<char>::empty());
    } else {
        lemma_parse_marker_free(ls, (n - 1) as nat);
        assert(ls.take(n as int) =~= ls.take(n - 1).push(ls[n - 1]));
        lemma_concat_push(ls.take(n - 1), ls[n - 1]);
    }
}

/// Text in which no line starts with a `<<<<<<<` marker parses to at most one clean
/// segment, and rebuilding it gives the text back, whatever the choices.
pub proof fn law_marker_free_roundtrip(text: Seq<char>, choices: Seq<Choice>)
    requires
        forall|k: int| 0 <= k < lines_incl(text).len() ==> !starts_with(#[trigger] lines_incl(text)[k], "<<<<<<<"@),
    ensures
        parse_conflicts_spec(text) == (if text.len() > 0 { seq![SegV::Clean(text)] } else { Seq::<SegV>::empty() }),
        rebuild_spec(parse_conflicts_spec(text), choices) == text,
{
    let ls = lines_incl(text);
    lemma_parse_marker_free(ls, ls.len());
    assert(ls.take(ls.len() as int) =~= ls);
    lemma_concat_lines_incl(text);
    if text.len() > 0 {
        let segs = seq![SegV::Clean(text)];
        assert(rebuild_from(segs, choices, 1, 0) == Seq::<char>::empty());
        assert(text + Seq::<char>::empty() =~= text);
    }
}

/// The number of conflict blocks in `segs[i..]`.
pub open spec fn conflicts_from(segs: Seq<SegV>, i: int) -> nat
    decreases segs.len() - i,
{
    if i < 0 || i >= segs.len() {
        0
    } else {
        conflicts_from(segs, i + 1) + if segs[i] is Conflict { 1nat } else { 0nat }
    }
}

/// The choices that rebuilding reads for `n` conflict blocks: the given ones, cut to `n`,
/// then `Ours` for each block beyond them.
pub open spec fn padded_choices(choices: Seq<Choice>, n: nat) -> Seq<Choice> {
    Seq::new(n, |j: int| choice_at(choices, j))
}

/// Rebuilding from `segs[i..]` reads only the choices `[ci, ci + conflicts_from(segs, i))`.
proof fn lemma_rebuild_reads_window(segs: Seq<SegV>, c1: Seq<Choice>, c2: Seq<Choice>, i: int, ci: int)
    requires
        0 <= i,
        forall|j: int| ci <= j < ci + conflicts_from(segs, i) ==> #[trigger] choice_at(c1, j) == choice_at(c2, j),
    ensures
        rebuild_from(segs, c1, i, ci) == rebuild_from(segs, c2, i, ci),
    decreases segs.len() - i,
{
    if i < segs.len() {
        match segs[i] {
            SegV::Conflict(o, b, t) => {
                assert(choice_at(c1, ci) == choice_at(c2, ci));
                lemma_rebuild_reads_window(segs, c1, c2, i + 1, ci + 1);
            },
            _ => lemma_rebuild_reads_window(segs, c1, c2, i + 1, ci),
        }
    }
}

/// Missing choices default to ours and surplus ones are ignored: rebuilding with any list
/// of choices gives what the list cut or padded with `Ours` to one choice per conflict
/// block gives, the clean and auto-resolved text copied in order either way.
pub proof fn law_rebuild_pads_choices_with_ours(segs: Seq<SegV>, choices: Seq<Choice>)
    ensures
        rebuild_spec(segs, choices) == rebuild_spec(segs, padded_choices(choices, conflicts_from(segs, 0))),
{
    let p = padded_choices(choices, conflicts_from(segs, 0));
    assert forall|j: int| 0 <= j < 0 + conflicts_from(segs, 0) implies #[trigger] choice_at(choices, j) == choice_at(p, j) by {}
    lemma_rebuild_reads_window(segs, choices, p, 0, 0);
}

/// A segment with ours and theirs swapped.
pub open spec fn mirror_seg(s: SegV) -> SegV {
    match s {
        SegV::Conflict(o, b, t) => SegV::Conflict(t, b, o),
        other => other,
    }
}

/// Swapping ours and theirs in a block mirrors its refinement: the same segments in the
/// same order, the clean and auto-resolved ones unchanged, each conflict with its two
/// sides swapped.
pub proof fn law_refine_mirror(ours: Seq<char>, base: Seq<char>, theirs: Seq<char>)
    ensures
        refine_spec(theirs, base, ours) == refine_spec(ours, base, theirs).map_values(|x: SegV| mirror_seg(x)),
{
    crate::diff3::law_merge3_mirror(ours, base, theirs);
    assert(refine_spec(theirs, base, ours) =~= refine_spec(ours, base, theirs).map_values(|x: SegV| mirror_seg(x)));
}

/// The magic wand's own choice takes the side that changed: the chosen version
/// differs from base only where base differs from the other side.
pub proof fn law_auto_choice_takes_changed_side(ours: Seq<char>, base: Seq<char>, theirs: Seq<char>)
    ensures
        auto_choice_spec(magic_spec(ours, base, theirs)) == Some(Choice::Theirs) <==> ours == base,
        auto_choice_spec(magic_spec(ours, base, theirs)) == Some(Choice::Ours) <==> (ours != base && theirs == base),
        auto_choice_spec(magic_spec(ours, base, theirs)) is None <==> (ours != base && theirs != base),
        match auto_choice_spec(magic_spec(ours, base, theirs)) {
            Some(c) => pick(c, ours, base, theirs) == (if ours == base { theirs } else { ours }),
            None => true,
        },
{
}

/// The line-level magic agrees with the block-level one: a block that the magic wand
/// decides by itself refines to one auto-resolved segment holding the chosen version.
pub proof fn law_refine_agrees_with_magic(ours: Seq<char>, base: Seq<char>, theirs: Seq<char>)
    ensures
        match auto_choice_spec(magic_spec(ours, base, theirs)) {
            Some(c) => refine_spec(ours, base, theirs) == (if pick(c, ours, base, theirs).len() > 0 {
                seq![SegV::Auto(pick(c, ours, base, theirs))]
            } else {
                Seq::<SegV>::empty()
            }),
            None => true,
        },
{
    if ours == base {
        crate::diff3::law_merge3_only_theirs_changed(base, theirs);
        if theirs.len() > 0 {
            assert(refine_spec(ours, base, theirs) =~= seq![SegV::Auto(theirs)]);
        } else {
            assert(refine_spec(ours, base, theirs) =~= Seq::<SegV>::empty());
        }
    } else if theirs == base {
        crate::diff3::law_merge3_only_ours_changed(ours, base);
        if ours.len() > 0 {
            assert(refine_spec(ours, base, theirs) =~= seq![SegV::Auto(ours)]);
        } else {
            assert(refine_spec(ours, base, theirs) =~= Seq::<SegV>::empty());
        }
    }
}


// ───────────────────────── on the repository ─────────────────────────

/// A whole side of a conflicted file.
#[derive(Debug, Clone, Copy, PartialEq, Eq, Structural)]
pub enum Side {
    Ours,
    Theirs,
}

pub open spec fn side_flag(side: Side) -> Seq<char> {
    match side {
        Side::Ours => "--ours"@,
        Side::Theirs => "--theirs"@,
    }
}

/// Reading a conflicted file into refined segments.
pub open spec fn read_conflict_spec(rs: Seq<crate::repo::ReplyV>, dir: Seq<char>, path: Seq<char>) -> Outcome<Seq<SegV>> {
    map_done(run_read(rs, 0, path_join(dir, path)), |t: Seq<char>| refine_segments_spec(parse_conflicts_spec(t)))
}

/// Writing a resolution and marking the file resolved (`git add`).
pub open spec fn write_resolution_spec(rs: Seq<crate::repo::ReplyV>, dir: Seq<char>, path: Seq<char>, text: Seq<char>) -> Outcome<()> {
    then(run_effect(rs, 0, RequestV::WriteFile(path_join(dir, path), text)), |u: ()|
        map_done(run_git(rs, 1, dir, seq!["add"@, "--"@, path]), |o: Seq<char>| ()))
}

/// Taking one whole side and marking the file resolved.
pub open spec fn take_side_spec(rs: Seq<crate::repo::ReplyV>, dir: Seq<char>, path: Seq<char>, side: Side) -> Outcome<()> {
    then(run_git(rs, 0, dir, seq!["checkout"@, side_flag(side), "--"@, path]), |o: Seq<char>|
        map_done(run_git(rs, 1, dir, seq!["add"@, "--"@, path]), |x: Seq<char>| ()))
}

impl Repo {
    /// Reads a conflicted file and parses it into segments (the three versions of each
    /// conflict block refined line by line).
    pub fn read_conflict(&self, path: &str, replies: &[Reply]) -> (r: Step<Vec<Segment>>)
        ensures
            step_view(r, |v: Vec<Segment>| seg_views(v@)) == read_conflict_spec(replies_view(replies@), self.dir(), path@),
    {
        let full = crate::repo::join_any(self.workdir(), path);
        match crate::repo::read_flow(replies, 0, full) {
            Flow::Ask(q) => Step::Ask(q),
            Flow::Fail(e) => Step::Done(Err(e)),
            Flow::Got(t) => Step::Done(Ok(refine_segments(parse_conflicts(t.as_str())))),
        }
    }

    /// Writes the resolved text of a file and marks it resolved.
    pub fn resolve_file(&self, path: &str, text: &str, replies: &[Reply]) -> (r: Step<()>)
        ensures
            step_view(r, |u: ()| u) == write_resolution_spec(replies_view(replies@), self.dir(), path@, text@),
    {
        let full = crate::repo::join_any(self.workdir(), path);
        match crate::repo::effect_flow(replies, 0, Request::WriteFile(full, s(text))) {
            Flow::Ask(q) => {
                return Step::Ask(q);
            },
            Flow::Fail(e) => {
                return Step::Done(Err(e));
            },
            Flow::Got(_) => {},
        }
        let args = vec![s("add"), s("--"), s(path)];
        assert(strs(args@) =~= seq!["add"@, "--"@, path@]);
        match self.git(replies, 1, args) {
            Flow::Ask(q) => Step::Ask(q),
            Flow::Fail(e) => Step::Done(Err(e)),
            Flow::Got(_) => Step::Done(Ok(())),
        }
    }

    /// Keeps the working-tree version of a file and marks it resolved (keep the change of
    /// a modify/delete conflict, or the other side's of a delete/modify one).
    pub fn resolve_keep(&self, path: &str, replies: &[Reply]) -> (r: Step<()>)
        ensures
            step_view(r, |u: ()| u) == unit_spec(replies_view(replies@), self.dir(), seq!["add"@, "--"@, path@]),
    {
        let args = vec![s("add"), s("--"), s(path)];
        assert(strs(args@) =~= seq!["add"@, "--"@, path@]);
        self.git_unit(replies, args)
    }

    /// Accepts the deletion: the file leaves the working tree and the index, resolved.
    pub fn resolve_remove(&self, path: &str, replies: &[Reply]) -> (r: Step<()>)
        ensures
            step_view(r, |u: ()| u) == unit_spec(replies_view(replies@), self.dir(), seq!["rm"@, "--"@, path@]),
    {
        let args = vec![s("rm"), s("--"), s(path)];
        assert(strs(args@) =~= seq!["rm"@, "--"@, path@]);
        self.git_unit(replies, args)
    }

    /// Takes one whole side of the file (`checkout --ours/--theirs`) and marks it resolved
    /// (for binary and add/add conflicts).
    pub fn resolve_take_side(&self, path: &str, side: Side, replies: &[Reply]) -> (r: Step<()>)
        ensures
            step_view(r, |u: ()| u) == take_side_spec(replies_view(replies@), self.dir(), path@, side),
    {
        let flag = match side {
            Side::Ours => s("--ours"),
            Side::Theirs => s("--theirs"),
        };
        let args = vec![s("checkout"), flag, s("--"), s(path)];
        assert(strs(args@) =~= seq!["checkout"@, side_flag(side), "--"@, path@]);
        match self.git(replies, 0, args) {
            Flow::Ask(q) => {
                return Step::Ask(q);
            },
            Flow::Fail(e) => {
                return Step::Done(Err(e));
            },
            Flow::Got(_) => {},
        }
        let a2 = vec![s("add"), s("--"), s(path)];
        assert(strs(a2@) =~= seq!["add"@, "--"@, path@]);
        match self.git(replies, 1, a2) {
            Flow::Ask(q) => Step::Ask(q),
            Flow::Fail(e) => Step::Done(Err(e)),
            Flow::Got(_) => Step::Done(Ok(())),
        }
    }

    /// The whole-file aligned three-way diff of a conflicted file, from its index stages
    /// (a missing stage reads as empty), for a three-column merge editor.
    pub fn merge_file_regions(&self, path: &str, replies: &[Reply]) -> (r: Step<Vec<crate::diff3::MergeRegion>>)
        ensures
            step_view(r, |v: Vec<crate::diff3::MergeRegion>| crate::diff3::region_views(v@)) == map_done(
                crate::conflict::three_spec(replies_view(replies@), self.dir(), path@),
                |t: (Option<Seq<char>>, Option<Seq<char>>, Option<Seq<char>>)| crate::diff3::merge_regions_spec(or_empty(t.1), or_empty(t.0), or_empty(t.2)),
            ),
    {
        match crate::conflict::three_versions(self, path, replies) {
            Step::Ask(q) => Step::Ask(q),
            Step::Done(Err(e)) => Step::Done(Err(e)),
            Step::Done(Ok(v)) => {
                let ours = unwrap_or_empty(&v.ours);
                let base = unwrap_or_empty(&v.base);
                let theirs = unwrap_or_empty(&v.theirs);
                Step::Done(Ok(crate::diff3::merge_regions(ours.as_str(), base.as_str(), theirs.as_str())))
            },
        }
    }
}

pub open spec fn or_empty(o: Option<Seq<char>>) -> Seq<char> {
    match o {
        Some(x) => x,
        None => Seq::empty(),
    }
}

fn unwrap_or_empty(o: &Option<String>) -> (r: String)
    ensures
        r@ == or_empty(crate::conflict::opt_view(*o)),
{
    match o {
        Some(x) => x.clone(),
        None => String::new(),
    }
}

} // verus!
