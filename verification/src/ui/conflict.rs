//! The three-column conflict view (ours │ base │ theirs): every conflicted file keeps its
//! own choices and progress; the magic wand fills in what it can decide, a person picks
//! the rest block by block, and each file is written back when done.
use vstd::prelude::*;
use crate::resolve::{Segment, SegV, Choice, seg_views, magic_spec, auto_choice_spec, rebuild_spec, rebuild};
use crate::stash::{StashRef, opt_label};
use crate::error::{Error, ErrorV};
use crate::text::{decimal, lines};
use crate::repo::{copy_string, s, strs};

verus! {

/// What a key in the conflict view ends in.
pub enum Action {
    Nothing,
    /// Complete the integration (the automatic stash, if any, goes back afterwards).
    Continue(Option<StashRef>),
    /// Give the integration up.
    Abort(Option<StashRef>),
    Quit,
}

/// One conflicted file's state.
pub struct FileProgress {
    pub path: String,
    /// The file's segments, refined line by line.
    pub segments: Vec<Segment>,
    /// The indices of the conflict segments.
    pub hunks: Vec<usize>,
    /// The choice for each conflict block, in the order of `hunks`.
    pub choices: Vec<Choice>,
    /// The current block, a position in `hunks`.
    pub cursor: usize,
    /// Written back and marked resolved.
    pub written: bool,
}

/// The git work the view asks for.
pub enum ConflictOp {
    /// Write this text to this file and mark it resolved.
    ResolveFile(String, String),
}

pub enum ConflictReply {
    Written(Result<(), Error>),
}

pub enum ConflictCmd {
    Run(ConflictOp),
    Finish(Result<Action, Error>),
}

pub struct ConflictView {
    pub files: Vec<FileProgress>,
    /// The file in focus.
    pub idx: usize,
    pub autostash: Option<StashRef>,
    pub message: String,
    /// Waiting for the focused file to be written.
    pub writing: bool,
}

// ───────────────────────── model ─────────────────────────

pub struct FileProgressV {
    pub path: Seq<char>,
    pub segments: Seq<SegV>,
    pub hunks: Seq<usize>,
    pub choices: Seq<Choice>,
    pub cursor: usize,
    pub written: bool,
}

pub enum ActionV {
    Nothing,
    Continue(Option<Seq<char>>),
    Abort(Option<Seq<char>>),
    Quit,
}

pub enum CmdV {
    Run(Seq<char>, Seq<char>),
    Finish(Result<ActionV, ErrorV>),
}

pub struct ConflictViewV {
    pub files: Seq<FileProgressV>,
    pub idx: usize,
    pub autostash: Option<Seq<char>>,
    pub message: Seq<char>,
    pub writing: bool,
}

impl FileProgress {
    pub open spec fn view(&self) -> FileProgressV {
        FileProgressV {
            path: self.path@,
            segments: seg_views(self.segments@),
            hunks: self.hunks@,
            choices: self.choices@,
            cursor: self.cursor,
            written: self.written,
        }
    }
}

pub open spec fn progress_view(v: Seq<FileProgress>) -> Seq<FileProgressV> {
    v.map_values(|f: FileProgress| f.view())
}

impl Action {
    pub open spec fn view(&self) -> ActionV {
        match self {
            Action::Nothing => ActionV::Nothing,
            Action::Continue(a) => ActionV::Continue(opt_label(*a)),
            Action::Abort(a) => ActionV::Abort(opt_label(*a)),
            Action::Quit => ActionV::Quit,
        }
    }
}

impl ConflictCmd {
    pub open spec fn view(&self) -> CmdV {
        match self {
            ConflictCmd::Run(ConflictOp::ResolveFile(p, t)) => CmdV::Run(p@, t@),
            ConflictCmd::Finish(Ok(a)) => CmdV::Finish(Ok(a.view())),
            ConflictCmd::Finish(Err(e)) => CmdV::Finish(Err(e.view())),
        }
    }
}

impl ConflictView {
    pub open spec fn view(&self) -> ConflictViewV {
        ConflictViewV {
            files: progress_view(self.files@),
            idx: self.idx,
            autostash: opt_label(self.autostash),
            message: self.message@,
            writing: self.writing,
        }
    }
}

pub open spec fn help_msg() -> Seq<char> {
    "魔法棒已预填;o/t/b 改选 · j/k 切块 · n/p 切文件 · w 写回"@
}

/// The indices of the conflict segments among `segs[..n]`.
pub open spec fn conflict_indices(segs: Seq<SegV>, n: int) -> Seq<usize>
    decreases n,
{
    if n <= 0 {
        Seq::empty()
    } else if segs[n - 1] is Conflict {
        conflict_indices(segs, n - 1).push((n - 1) as usize)
    } else {
        conflict_indices(segs, n - 1)
    }
}

/// The magic wand's choice for a segment (ours when a person has to decide).
pub open spec fn initial_choice(s: SegV) -> Choice {
    match s {
        SegV::Conflict(o, b, t) => match auto_choice_spec(magic_spec(o, b, t)) {
            Some(c) => c,
            None => Choice::Ours,
        },
        _ => Choice::Ours,
    }
}

/// A file as it is first shown: its blocks pre-filled by the magic wand.
pub open spec fn file_spec(path: Seq<char>, segs: Seq<SegV>) -> FileProgressV {
    let hs = conflict_indices(segs, segs.len() as int);
    FileProgressV {
        path,
        segments: segs,
        hunks: hs,
        choices: hs.map_values(|i: usize| initial_choice(segs[i as int])),
        cursor: 0,
        written: false,
    }
}

/// The first file at or after `i` that still has blocks.
pub open spec fn with_blocks_from(fs: Seq<FileProgressV>, i: int) -> Option<int>
    decreases fs.len() - i,
{
    if i < 0 || i >= fs.len() {
        None
    } else if fs[i].hunks.len() > 0 {
        Some(i)
    } else {
        with_blocks_from(fs, i + 1)
    }
}

/// The first file at or after `i` not yet written back.
pub open spec fn pending_from(fs: Seq<FileProgressV>, i: int) -> Option<int>
    decreases fs.len() - i,
{
    if i < 0 || i >= fs.len() {
        None
    } else if !fs[i].written {
        Some(i)
    } else {
        pending_from(fs, i + 1)
    }
}

pub open spec fn done(v: ConflictViewV, a: ActionV) -> (ConflictViewV, CmdV) {
    (ConflictViewV { writing: false, ..v }, CmdV::Finish(Ok(a)))
}

/// The focused file changed by `f`, if there is a focused file.
pub open spec fn with_focused(v: ConflictViewV, f: FileProgressV) -> ConflictViewV {
    ConflictViewV { files: v.files.update(v.idx as int, f), ..v }
}

pub open spec fn set_choice(v: ConflictViewV, c: Choice) -> ConflictViewV {
    if v.idx < v.files.len() && v.files[v.idx as int].cursor < v.files[v.idx as int].choices.len() {
        let f = v.files[v.idx as int];
        with_focused(v, FileProgressV { choices: f.choices.update(f.cursor as int, c), ..f })
    } else {
        v
    }
}

/// Key `c`: `q` quits, `x` gives the integration up and `c` completes it (both hand the
/// automatic stash over), `j`/`k` move between blocks and `n`/`p` between files, `o`/`t`/`b`
/// choose ours, theirs or base for the block, `w` writes the file back.
pub open spec fn key_spec(v: ConflictViewV, c: char) -> (ConflictViewV, CmdV) {
    let has = v.idx < v.files.len();
    if c == 'q' {
        done(v, ActionV::Quit)
    } else if c == 'x' {
        done(ConflictViewV { autostash: None, ..v }, ActionV::Abort(v.autostash))
    } else if c == 'c' {
        done(ConflictViewV { autostash: None, ..v }, ActionV::Continue(v.autostash))
    } else if c == 'j' {
        if has && v.files[v.idx as int].cursor + 1 < v.files[v.idx as int].hunks.len() {
            let f = v.files[v.idx as int];
            done(with_focused(v, FileProgressV { cursor: (f.cursor + 1) as usize, ..f }), ActionV::Nothing)
        } else {
            done(v, ActionV::Nothing)
        }
    } else if c == 'k' {
        if has && v.files[v.idx as int].cursor > 0 {
            let f = v.files[v.idx as int];
            done(with_focused(v, FileProgressV { cursor: (f.cursor - 1) as usize, ..f }), ActionV::Nothing)
        } else {
            done(v, ActionV::Nothing)
        }
    } else if c == 'n' {
        done(if v.idx + 1 < v.files.len() { ConflictViewV { idx: (v.idx + 1) as usize, ..v } } else { v }, ActionV::Nothing)
    } else if c == 'p' {
        done(if v.idx > 0 { ConflictViewV { idx: (v.idx - 1) as usize, ..v } } else { v }, ActionV::Nothing)
    } else if c == 'o' {
        done(set_choice(v, Choice::Ours), ActionV::Nothing)
    } else if c == 't' {
        done(set_choice(v, Choice::Theirs), ActionV::Nothing)
    } else if c == 'b' {
        done(set_choice(v, Choice::Base), ActionV::Nothing)
    } else if c == 'w' && has {
        let f = v.files[v.idx as int];
        (ConflictViewV { writing: true, ..v }, CmdV::Run(f.path, rebuild_spec(f.segments, f.choices)))
    } else {
        done(v, ActionV::Nothing)
    }
}

/// The result of writing the focused file back: it is done, and the focus goes to the
/// first file still to be written, if any.
pub open spec fn reply_spec(v: ConflictViewV, r: Result<(), ErrorV>) -> (ConflictViewV, CmdV) {
    if !v.writing || v.idx >= v.files.len() {
        done(v, ActionV::Nothing)
    } else {
        match r {
            Err(e) => (ConflictViewV { writing: false, ..v }, CmdV::Finish(Err(e))),
            Ok(()) => {
                let f = v.files[v.idx as int];
                let v1 = with_focused(v, FileProgressV { written: true, ..f });
                match pending_from(v1.files, 0) {
                    Some(n) => done(ConflictViewV {
                        idx: n as usize,
                        message: "已写回;转到待处理文件 "@ + decimal((n + 1) as nat) + "/"@ + decimal(v1.files.len()),
                        ..v1
                    }, ActionV::Nothing),
                    None => done(ConflictViewV { message: "全部文件已写回 —— 按 c 完成整合 / x 放弃"@, ..v1 }, ActionV::Nothing),
                }
            },
        }
    }
}

/// The lines the line-level magic decided in a file.
pub open spec fn auto_lines_upto(segs: Seq<SegV>, n: int) -> nat
    decreases n,
{
    if n <= 0 {
        0
    } else {
        auto_lines_upto(segs, n - 1) + match segs[n - 1] {
            SegV::Auto(t) => lines(t).len(),
            _ => 0,
        }
    }
}

// ───────────────────────── code ─────────────────────────

/// A conflicted file as it is first shown: its blocks, each pre-filled by the magic wand
/// (ours where a person has to decide).
pub fn file_progress(path: String, segments: Vec<Segment>) -> (r: FileProgress)
    ensures
        r.view() == file_spec(path@, seg_views(segments@)),
{
    let ghost sv = seg_views(segments@);
    let mut hunks: Vec<usize> = Vec::new();
    let mut choices: Vec<Choice> = Vec::new();
    let mut i: usize = 0;
    while i < segments.len()
        invariant
            i <= segments.len(),
            sv == seg_views(segments@),
            hunks@ == conflict_indices(sv, i as int),
            choices@ == hunks@.map_values(|j: usize| initial_choice(sv[j as int])),
            forall|j: int| 0 <= j < hunks@.len() ==> hunks@[j] < i,
        decreases segments.len() - i,
    {
        assert(sv[i as int] == segments@[i as int].view());
        match &segments[i] {
            Segment::Conflict(h) => {
                let c = match h.magic().auto_choice() {
                    Some(c) => c,
                    None => Choice::Ours,
                };
                hunks.push(i);
                choices.push(c);
                assert(choices@ =~= hunks@.map_values(|j: usize| initial_choice(sv[j as int])));
            },
            _ => {},
        }
        i = i + 1;
    }
    FileProgress { path, segments, hunks, choices, cursor: 0, written: false }
}

/// The start of the run of line-level decided segments that ends just before `j`.
pub open spec fn run_start(segs: Seq<SegV>, j: int) -> int
    decreases j,
{
    if j > 0 && j <= segs.len() && segs[j - 1] is Auto { run_start(segs, j - 1) } else { j }
}

/// The end of the run of line-level decided segments that starts at `j`.
pub open spec fn run_end(segs: Seq<SegV>, j: int) -> int
    decreases segs.len() - j,
{
    if 0 <= j < segs.len() && segs[j] is Auto { run_end(segs, j + 1) } else { j }
}

/// The texts of the (line-level decided) segments `segs[a..b]`.
pub open spec fn auto_texts(segs: Seq<SegV>, a: int, b: int) -> Seq<Seq<char>>
    decreases b - a,
{
    if b <= a {
        Seq::empty()
    } else {
        auto_texts(segs, a, b - 1).push(segs[b - 1]->Auto_0)
    }
}

proof fn lemma_run_start_bounds(segs: Seq<SegV>, j: int)
    requires
        0 <= j <= segs.len(),
    ensures
        0 <= run_start(segs, j) <= j,
        forall|i: int| run_start(segs, j) <= i < j ==> (#[trigger] segs[i]) is Auto,
    decreases j,
{
    if j > 0 && segs[j - 1] is Auto {
        lemma_run_start_bounds(segs, j - 1);
    }
}

proof fn lemma_run_end_bounds(segs: Seq<SegV>, j: int)
    requires
        0 <= j <= segs.len(),
    ensures
        j <= run_end(segs, j) <= segs.len(),
        forall|i: int| j <= i < run_end(segs, j) ==> (#[trigger] segs[i]) is Auto,
    decreases segs.len() - j,
{
    if j < segs.len() && segs[j] is Auto {
        lemma_run_end_bounds(segs, j + 1);
    }
}

fn texts_between(f: &FileProgress, a: usize, b: usize) -> (r: Vec<String>)
    requires
        a <= b <= f.segments@.len(),
        forall|i: int| a <= i < b ==> (#[trigger] seg_views(f.segments@)[i]) is Auto,
    ensures
        strs(r@) == auto_texts(seg_views(f.segments@), a as int, b as int),
{
    let ghost sv = seg_views(f.segments@);
    let mut r: Vec<String> = Vec::new();
    let mut i = a;
    while i < b
        invariant
            a <= i <= b,
            b <= f.segments@.len(),
            sv == seg_views(f.segments@),
            forall|k: int| a <= k < b ==> (#[trigger] sv[k]) is Auto,
            strs(r@) == auto_texts(sv, a as int, i as int),
        decreases b - i,
    {
        assert(sv[i as int] == f.segments@[i as int].view());
        assert(sv[i as int] is Auto);
        match &f.segments[i] {
            Segment::AutoResolved(t) => {
                let ghost before = strs(r@);
                r.push(copy_string(t));
                assert(strs(r@) =~= before.push(t@));
            },
            _ => {},
        }
        i = i + 1;
    }
    r
}

/// The line-level decided text right before and right after segment `hi` (the context of
/// a block inside its original conflict), in file order.
pub fn auto_context(f: &FileProgress, hi: usize) -> (r: (Vec<String>, Vec<String>))
    requires
        hi < f.segments@.len(),
    ensures
        strs(r.0@) == auto_texts(seg_views(f.segments@), run_start(seg_views(f.segments@), hi as int), hi as int),
        strs(r.1@) == auto_texts(seg_views(f.segments@), hi + 1, run_end(seg_views(f.segments@), hi + 1)),
{
    let ghost sv = seg_views(f.segments@);
    proof {
        lemma_run_start_bounds(sv, hi as int);
        lemma_run_end_bounds(sv, hi + 1);
    }
    let mut s = hi;
    while s > 0 && matches!(f.segments[s - 1], Segment::AutoResolved(_))
        invariant
            s <= hi < f.segments@.len(),
            sv == seg_views(f.segments@),
            run_start(sv, hi as int) == run_start(sv, s as int),
        decreases s,
    {
        assert(sv[s - 1] == f.segments@[s - 1].view());
        s = s - 1;
    }
    proof {
        if s > 0 {
            assert(sv[s - 1] == f.segments@[s - 1].view());
        }
    }
    let n = f.segments.len();
    assert(hi < n);
    let mut e = hi + 1;
    while e < f.segments.len() && matches!(f.segments[e], Segment::AutoResolved(_))
        invariant
            hi + 1 <= e <= f.segments@.len(),
            sv == seg_views(f.segments@),
            run_end(sv, hi + 1) == run_end(sv, e as int),
        decreases f.segments@.len() - e,
    {
        assert(sv[e as int] == f.segments@[e as int].view());
        e = e + 1;
    }
    proof {
        if e < f.segments@.len() {
            assert(sv[e as int] == f.segments@[e as int].view());
        }
    }
    (texts_between(f, s, hi), texts_between(f, hi + 1, e))
}

/// The lines the line-level magic decided in `f` (at most `usize::MAX`).
pub fn auto_lines(f: &FileProgress) -> (r: usize)
    ensures
        r == if auto_lines_upto(seg_views(f.segments@), f.segments@.len() as int) <= usize::MAX {
            auto_lines_upto(seg_views(f.segments@), f.segments@.len() as int)
        } else {
            usize::MAX as nat
        },
{
    let ghost sv = seg_views(f.segments@);
    let mut total: usize = 0;
    let mut i: usize = 0;
    while i < f.segments.len()
        invariant
            i <= f.segments.len(),
            sv == seg_views(f.segments@),
            total == if auto_lines_upto(sv, i as int) <= usize::MAX { auto_lines_upto(sv, i as int) } else { usize::MAX as nat },
        decreases f.segments.len() - i,
    {
        assert(sv[i as int] == f.segments@[i as int].view());
        proof { lemma_auto_lines_mono(sv, i as int, i + 1); }
        match &f.segments[i] {
            Segment::AutoResolved(t) => {
                let n = crate::text::lines_of(&crate::text::chars_of(t.as_str())).len();
                total = if total > usize::MAX - n { usize::MAX } else { total + n };
            },
            _ => {},
        }
        i = i + 1;
    }
    total
}

proof fn lemma_auto_lines_mono(segs: Seq<SegV>, a: int, b: int)
    requires
        0 <= a <= b,
    ensures
        auto_lines_upto(segs, a) <= auto_lines_upto(segs, b),
    decreases b - a,
{
    if a < b {
        lemma_auto_lines_mono(segs, a, b - 1);
    }
}

fn copy_stash(o: &Option<StashRef>) -> (r: Option<StashRef>)
    ensures
        opt_label(r) == opt_label(*o),
{
    match o {
        Some(st) => Some(StashRef { label: copy_string(&st.label) }),
        None => None,
    }
}

impl ConflictView {
    /// The view of the conflicted files (each path with its segments), focused on the first
    /// that has blocks to decide.
    pub fn load(files: Vec<(String, Vec<Segment>)>, autostash: Option<StashRef>) -> (r: ConflictView)
        ensures
            r.view().files == files@.map_values(|p: (String, Vec<Segment>)| file_spec(p.0@, seg_views(p.1@))),
            r.view().idx == (match with_blocks_from(r.view().files, 0) { Some(i) => i as usize, None => 0 }),
            r.view().autostash == opt_label(autostash),
            r.view().message == help_msg(),
            !r.view().writing,
    {
        let ghost want = files@.map_values(|p: (String, Vec<Segment>)| file_spec(p.0@, seg_views(p.1@)));
        let n = files.len();
        let mut out: Vec<FileProgress> = Vec::new();
        let mut rest = files;
        let ghost orig = rest@;
        // Take the files from the back, then put them in order.
        let mut rev: Vec<FileProgress> = Vec::new();
        while rest.len() > 0
            invariant
                rest@.len() + rev@.len() == n,
                rest@ == orig.take(rest@.len() as int),
                n == orig.len(),
                forall|j: int| 0 <= j < rev@.len() ==> (#[trigger] rev@[j]).view() == file_spec(orig[n - 1 - j].0@, seg_views(orig[n - 1 - j].1@)),
            decreases rest.len(),
        {
            let (p, segs) = rest.pop().unwrap();
            let f = file_progress(p, segs);
            rev.push(f);
        }
        while rev.len() > 0
            invariant
                rev@.len() + out@.len() == n,
                n == orig.len(),
                forall|j: int| 0 <= j < rev@.len() ==> (#[trigger] rev@[j]).view() == file_spec(orig[n - 1 - j].0@, seg_views(orig[n - 1 - j].1@)),
                forall|j: int| 0 <= j < out@.len() ==> (#[trigger] out@[j]).view() == file_spec(orig[j].0@, seg_views(orig[j].1@)),
            decreases rev.len(),
        {
            let f = rev.pop().unwrap();
            out.push(f);
        }
        assert(progress_view(out@) =~= want);
        let mut idx: usize = 0;
        let mut i: usize = 0;
        let ghost pv = progress_view(out@);
        while i < out.len() && out[i].hunks.len() == 0
            invariant
                i <= out.len(),
                pv == progress_view(out@),
                with_blocks_from(pv, 0) == with_blocks_from(pv, i as int),
            decreases out.len() - i,
        {
            i = i + 1;
        }
        if i < out.len() {
            idx = i;
        }
        ConflictView {
            files: out,
            idx,
            autostash,
            message: s("魔法棒已预填;o/t/b 改选 · j/k 切块 · n/p 切文件 · w 写回"),
            writing: false,
        }
    }

    fn finish(&mut self, a: Action) -> (r: ConflictCmd)
        ensures
            (final(self).view(), r.view()) == done(old(self).view(), a.view()),
    {
        self.writing = false;
        ConflictCmd::Finish(Ok(a))
    }

    fn set_choice(&mut self, c: Choice)
        ensures
            final(self).view() == set_choice(old(self).view(), c),
    {
        if self.idx < self.files.len() && self.files[self.idx].cursor < self.files[self.idx].choices.len() {
            let ghost before = progress_view(self.files@);
            let k = self.files[self.idx].cursor;
            let mut f = self.files.remove(self.idx);
            f.choices.set(k, c);
            self.files.insert(self.idx, f);
            assert(progress_view(self.files@) =~= before.update(self.idx as int, FileProgressV { choices: before[self.idx as int].choices.update(k as int, c), ..before[self.idx as int] }));
        }
    }

    fn move_block(&mut self, down: bool)
        requires
            old(self).idx < old(self).files.len(),
            down ==> old(self).files[old(self).idx as int].cursor + 1 < old(self).files[old(self).idx as int].hunks.len(),
            !down ==> old(self).files[old(self).idx as int].cursor > 0,
        ensures
            final(self).view() == with_focused(old(self).view(), FileProgressV {
                cursor: if down { (old(self).view().files[old(self).idx as int].cursor + 1) as usize } else { (old(self).view().files[old(self).idx as int].cursor - 1) as usize },
                ..old(self).view().files[old(self).idx as int]
            }),
    {
        let ghost before = progress_view(self.files@);
        let mut f = self.files.remove(self.idx);
        f.cursor = if down { f.cursor + 1 } else { f.cursor - 1 };
        self.files.insert(self.idx, f);
        assert(progress_view(self.files@) =~= before.update(self.idx as int, f.view()));
    }

    /// Key `c`: the view's next state, and the work it needs or how the key ends.
    pub fn handle_key(&mut self, c: char) -> (r: ConflictCmd)
        ensures
            (final(self).view(), r.view()) == key_spec(old(self).view(), c),
    {
        let has = self.idx < self.files.len();
        if c == 'q' {
            return self.finish(Action::Quit);
        }
        if c == 'x' || c == 'c' {
            let mut st: Option<StashRef> = None;
            std::mem::swap(&mut st, &mut self.autostash);
            return if c == 'x' { self.finish(Action::Abort(st)) } else { self.finish(Action::Continue(st)) };
        }
        if c == 'j' {
            if has && crate::ui::can_go_down(self.files[self.idx].cursor, self.files[self.idx].hunks.len()) {
                self.move_block(true);
            }
            return self.finish(Action::Nothing);
        }
        if c == 'k' {
            if has && self.files[self.idx].cursor > 0 {
                self.move_block(false);
            }
            return self.finish(Action::Nothing);
        }
        if c == 'n' {
            if crate::ui::can_go_down(self.idx, self.files.len()) {
                self.idx = self.idx + 1;
            }
            return self.finish(Action::Nothing);
        }
        if c == 'p' {
            if self.idx > 0 {
                self.idx = self.idx - 1;
            }
            return self.finish(Action::Nothing);
        }
        if c == 'o' || c == 't' || c == 'b' {
            let choice = if c == 'o' { Choice::Ours } else if c == 't' { Choice::Theirs } else { Choice::Base };
            self.set_choice(choice);
            return self.finish(Action::Nothing);
        }
        if c == 'w' && has {
            let f = &self.files[self.idx];
            let text = rebuild(&f.segments, &f.choices);
            let path = copy_string(&f.path);
            self.writing = true;
            return ConflictCmd::Run(ConflictOp::ResolveFile(path, text));
        }
        self.finish(Action::Nothing)
    }

    /// The result of writing the focused file back.
    pub fn on_reply(&mut self, r: ConflictReply) -> (cmd: ConflictCmd)
        ensures
            (final(self).view(), cmd.view()) == reply_spec(old(self).view(), match r { ConflictReply::Written(Ok(())) => Ok(()), ConflictReply::Written(Err(e)) => Err(e.view()) }),
    {
        if !self.writing || self.idx >= self.files.len() {
            return self.finish(Action::Nothing);
        }
        self.writing = false;
        match r {
            ConflictReply::Written(Err(e)) => ConflictCmd::Finish(Err(e)),
            ConflictReply::Written(Ok(())) => {
                let ghost before = progress_view(self.files@);
                let mut f = self.files.remove(self.idx);
                f.written = true;
                self.files.insert(self.idx, f);
                assert(progress_view(self.files@) =~= before.update(self.idx as int, FileProgressV { written: true, ..before[self.idx as int] }));
                let ghost pv = progress_view(self.files@);
                let mut i: usize = 0;
                while i < self.files.len() && self.files[i].written
                    invariant
                        i <= self.files.len(),
                        pv == progress_view(self.files@),
                        pending_from(pv, 0) == pending_from(pv, i as int),
                    decreases self.files.len() - i,
                {
                    i = i + 1;
                }
                if i < self.files.len() {
                    self.idx = i;
                    let mut m = crate::text::chars_of("已写回;转到待处理文件 ");
                    crate::text::push_decimal(&mut m, (i + 1) as u64);
                    crate::text::push_str(&mut m, "/");
                    crate::text::push_decimal(&mut m, self.files.len() as u64);
                    self.message = crate::text::string_of(&m);
                } else {
                    self.message = s("全部文件已写回 —— 按 c 完成整合 / x 放弃");
                }
                ConflictCmd::Finish(Ok(Action::Nothing))
            },
        }
    }
}


// ───────────────────────── laws ─────────────────────────

/// The automatic stash is handed over once: after `c` (complete) or `x` (give up), a
/// second `c` or `x` carries no stash.
pub proof fn law_autostash_handed_over_once(v: ConflictViewV, c1: char, c2: char)
    requires
        c1 == 'c' || c1 == 'x',
        c2 == 'c' || c2 == 'x',
    ensures
        key_spec(v, c1).1 == CmdV::Finish(Ok(if c1 == 'c' { ActionV::Continue(v.autostash) } else { ActionV::Abort(v.autostash) })),
        key_spec(key_spec(v, c1).0, c2).1 == CmdV::Finish(Ok(if c2 == 'c' { ActionV::Continue(None) } else { ActionV::Abort(None) })),
{
}

/// Writing a file back writes what the choices give: `w` asks to write the focused file
/// with its segments rebuilt from its choices.
pub proof fn law_write_uses_choices(v: ConflictViewV)
    requires
        v.idx < v.files.len(),
    ensures
        key_spec(v, 'w').1 == CmdV::Run(v.files[v.idx as int].path, rebuild_spec(v.files[v.idx as int].segments, v.files[v.idx as int].choices)),
{
}

} // verus!
