//! The diff view: the changed files on the left, the selected file's hunks on the right.
//! On the file list, `j`/`k` pick a file, `l`/Enter go into its diff, Space stages (or
//! unstages) the whole file; in the diff, `j`/`k` move, Space picks a line or applies a
//! whole hunk, `s` applies the picked lines, `h`/`q` go back. `t` switches between the
//! unstaged and the staged changes.
use vstd::prelude::*;
use crate::hunk::{FileDiff, FileV, HunkV, LineKind, files_view, hunks_view, dlines_view};
use crate::error::{Error, ErrorV, error_text};
use crate::text::decimal;
use crate::repo::{copy_string, s, strs};
use crate::ui::{DOWN, UP, LEFT, RIGHT, can_go_down};
use crate::ui::log::{hunk_header, hunk_header_exec};
use crate::present::with_number;

verus! {

/// What a key in the diff view ends in.
#[derive(Debug, Clone, Copy, PartialEq, Eq, Structural)]
pub enum Action {
    Nothing,
    Back,
}

#[derive(Debug, Clone, Copy, PartialEq, Eq, Structural)]
pub enum Focus {
    Files,
    Diff,
}

#[derive(Debug, Clone, Copy, PartialEq, Eq, Structural)]
pub enum RowKind {
    HunkHeader,
    Context,
    Added,
    Removed,
}

/// One line of the right column: a hunk's header or one of its lines.
pub struct DiffRow {
    pub text: String,
    pub kind: RowKind,
    pub hunk_idx: usize,
    /// The line's index in its hunk (`None` on a header).
    pub line_idx: Option<usize>,
}

/// The git work the view asks for. Files and hunks are named by their indices in the
/// view's `files`.
pub enum DiffOp {
    /// The staged (`true`) or unstaged changes.
    Diff(bool),
    Stage(Vec<String>),
    Unstage(Vec<String>),
    StageHunk(usize, usize),
    UnstageHunk(usize, usize),
    /// These lines of the hunk.
    StageLines(usize, usize, Vec<usize>),
    UnstageLines(usize, usize, Vec<usize>),
}

pub enum DiffReply {
    Diffs(Result<Vec<FileDiff>, Error>),
    Changed(Result<(), Error>),
}

pub enum DiffCmd {
    Run(DiffOp),
    Finish(Result<Action, Error>),
}

/// The work the view is waiting for.
pub enum Pending {
    Idle,
    /// The diff after switching sides.
    Reload,
    /// A change; then the diff, then this message.
    Changing(String),
    ReloadThen(String),
}

pub struct DiffView {
    /// The staged changes (index against HEAD) rather than the unstaged ones.
    pub staged: bool,
    pub files: Vec<FileDiff>,
    pub file_cursor: usize,
    pub focus: Focus,
    pub rows: Vec<DiffRow>,
    pub row_cursor: usize,
    /// The hunk whose lines are being picked.
    pub active_hunk: Option<usize>,
    /// The picked lines of that hunk, in the order they were picked.
    pub selected: Vec<usize>,
    pub message: String,
    pub pending: Pending,
}

// ───────────────────────── model ─────────────────────────

pub type RowV = (Seq<char>, RowKind, usize, Option<usize>);

pub enum OpV {
    Diff(bool),
    Stage(Seq<Seq<char>>),
    Unstage(Seq<Seq<char>>),
    StageHunk(usize, usize),
    UnstageHunk(usize, usize),
    StageLines(usize, usize, Seq<usize>),
    UnstageLines(usize, usize, Seq<usize>),
}

pub enum ReplyV {
    Diffs(Result<Seq<FileV>, ErrorV>),
    Changed(Result<(), ErrorV>),
}

pub enum CmdV {
    Run(OpV),
    Finish(Result<Action, ErrorV>),
}

pub enum PendingV {
    Idle,
    Reload,
    Changing(Seq<char>),
    ReloadThen(Seq<char>),
}

pub struct DiffViewV {
    pub staged: bool,
    pub files: Seq<FileV>,
    pub file_cursor: usize,
    pub focus: Focus,
    pub rows: Seq<RowV>,
    pub row_cursor: usize,
    pub active_hunk: Option<usize>,
    pub selected: Seq<usize>,
    pub message: Seq<char>,
    pub pending: PendingV,
}

pub open spec fn diff_rows_view(v: Seq<DiffRow>) -> Seq<RowV> {
    v.map_values(|r: DiffRow| (r.text@, r.kind, r.hunk_idx, r.line_idx))
}

impl DiffOp {
    pub open spec fn view(&self) -> OpV {
        match self {
            DiffOp::Diff(b) => OpV::Diff(*b),
            DiffOp::Stage(p) => OpV::Stage(strs(p@)),
            DiffOp::Unstage(p) => OpV::Unstage(strs(p@)),
            DiffOp::StageHunk(f, h) => OpV::StageHunk(*f, *h),
            DiffOp::UnstageHunk(f, h) => OpV::UnstageHunk(*f, *h),
            DiffOp::StageLines(f, h, l) => OpV::StageLines(*f, *h, l@),
            DiffOp::UnstageLines(f, h, l) => OpV::UnstageLines(*f, *h, l@),
        }
    }
}

impl DiffReply {
    pub open spec fn view(&self) -> ReplyV {
        match self {
            DiffReply::Diffs(Ok(v)) => ReplyV::Diffs(Ok(files_view(v@))),
            DiffReply::Diffs(Err(e)) => ReplyV::Diffs(Err(e.view())),
            DiffReply::Changed(Ok(())) => ReplyV::Changed(Ok(())),
            DiffReply::Changed(Err(e)) => ReplyV::Changed(Err(e.view())),
        }
    }
}

impl DiffCmd {
    pub open spec fn view(&self) -> CmdV {
        match self {
            DiffCmd::Run(op) => CmdV::Run(op.view()),
            DiffCmd::Finish(Ok(a)) => CmdV::Finish(Ok(*a)),
            DiffCmd::Finish(Err(e)) => CmdV::Finish(Err(e.view())),
        }
    }
}

impl Pending {
    pub open spec fn view(&self) -> PendingV {
        match self {
            Pending::Idle => PendingV::Idle,
            Pending::Reload => PendingV::Reload,
            Pending::Changing(m) => PendingV::Changing(m@),
            Pending::ReloadThen(m) => PendingV::ReloadThen(m@),
        }
    }
}

impl DiffView {
    pub open spec fn view(&self) -> DiffViewV {
        DiffViewV {
            staged: self.staged,
            files: files_view(self.files@),
            file_cursor: self.file_cursor,
            focus: self.focus,
            rows: diff_rows_view(self.rows@),
            row_cursor: self.row_cursor,
            active_hunk: self.active_hunk,
            selected: self.selected@,
            message: self.message@,
            pending: self.pending.view(),
        }
    }
}

/// A diff line with its ` `, `+` or `-`.
pub open spec fn line_row(l: (LineKind, Seq<char>), hi: usize, li: usize) -> RowV {
    match l.0 {
        LineKind::Context => (seq![' '] + l.1, RowKind::Context, hi, Some(li)),
        LineKind::Added => (seq!['+'] + l.1, RowKind::Added, hi, Some(li)),
        LineKind::Removed => (seq!['-'] + l.1, RowKind::Removed, hi, Some(li)),
    }
}

pub open spec fn lines_rows(ls: Seq<(LineKind, Seq<char>)>, hi: usize, n: int) -> Seq<RowV>
    decreases n,
{
    if n <= 0 { Seq::empty() } else { lines_rows(ls, hi, n - 1).push(line_row(ls[n - 1], hi, (n - 1) as usize)) }
}

pub open spec fn hunk_rows(h: HunkV, hi: usize) -> Seq<RowV> {
    seq![(hunk_header(h), RowKind::HunkHeader, hi, None::<usize>)] + lines_rows(h.lines, hi, h.lines.len() as int)
}

pub open spec fn hunks_rows(hs: Seq<HunkV>, n: int) -> Seq<RowV>
    decreases n,
{
    if n <= 0 { Seq::empty() } else { hunks_rows(hs, n - 1) + hunk_rows(hs[n - 1], (n - 1) as usize) }
}

/// A cursor past the end goes to the last row (to 0 on none).
pub open spec fn keep_in(c: usize, n: nat) -> usize {
    if c >= n { if n == 0 { 0 } else { (n - 1) as usize } } else { c }
}

/// The right column rebuilt for the file under the cursor.
pub open spec fn rebuild_right(v: DiffViewV) -> DiffViewV {
    let rows = if v.file_cursor < v.files.len() {
        let f = v.files[v.file_cursor as int];
        hunks_rows(f.hunks, f.hunks.len() as int)
    } else {
        Seq::empty()
    };
    DiffViewV { rows, row_cursor: keep_in(v.row_cursor, rows.len()), ..v }
}

pub open spec fn side_name(staged: bool) -> Seq<char> {
    if staged { "已暂存"@ } else { "未暂存"@ }
}

pub open spec fn act_name(staged: bool) -> Seq<char> {
    if staged { "取消暂存"@ } else { "暂存"@ }
}

pub open spec fn default_message(v: DiffViewV) -> Seq<char> {
    match v.focus {
        Focus::Files => side_name(v.staged) + " · j/k 选文件 · l/Enter 进 diff · Space 暂存整文件 · t 切暂存区 · q 返回"@,
        Focus::Diff => side_name(v.staged) + " · j/k 移动 · Space 选行/"@ + act_name(v.staged) + "整 hunk · s "@ + act_name(v.staged)
            + "选中行 · h/q 回文件列表"@,
    }
}

pub open spec fn with_default_message(v: DiffViewV) -> DiffViewV {
    DiffViewV { message: default_message(v), ..v }
}

pub open spec fn selection_message(staged: bool, n: nat) -> Seq<char> {
    "已选 "@ + decimal(n) + " 行 · s "@ + act_name(staged) + "选中行 · Space 继续选/取消选"@
}

/// The view with the diff `fs` read again: the cursor kept on a file, nothing picked, the
/// file list focused when the file has no lines.
pub open spec fn reload(v: DiffViewV, fs: Seq<FileV>) -> DiffViewV {
    let v1 = rebuild_right(DiffViewV {
        files: fs,
        file_cursor: keep_in(v.file_cursor, fs.len()),
        active_hunk: None,
        selected: Seq::empty(),
        ..v
    });
    let v2 = if v1.rows.len() == 0 { DiffViewV { focus: Focus::Files, ..v1 } } else { v1 };
    with_default_message(v2)
}

pub open spec fn initial() -> DiffViewV {
    DiffViewV {
        staged: false,
        files: Seq::empty(),
        file_cursor: 0,
        focus: Focus::Files,
        rows: Seq::empty(),
        row_cursor: 0,
        active_hunk: None,
        selected: Seq::empty(),
        message: Seq::empty(),
        pending: PendingV::Idle,
    }
}

pub open spec fn done(v: DiffViewV, a: Action) -> (DiffViewV, CmdV) {
    (DiffViewV { pending: PendingV::Idle, ..v }, CmdV::Finish(Ok(a)))
}

pub open spec fn run(v: DiffViewV, op: OpV, p: PendingV) -> (DiffViewV, CmdV) {
    (DiffViewV { pending: p, ..v }, CmdV::Run(op))
}

pub open spec fn fail(v: DiffViewV, e: ErrorV) -> (DiffViewV, CmdV) {
    (DiffViewV { pending: PendingV::Idle, ..v }, CmdV::Finish(Err(e)))
}

/// The file cursor moved by one (`down` or up), kept on a file.
pub open spec fn next_file(c: usize, n: nat, down: bool) -> usize {
    if down {
        if c + 1 >= n { (n - 1) as usize } else { (c + 1) as usize }
    } else {
        if c == 0 { 0 } else if c - 1 > n - 1 { (n - 1) as usize } else { (c - 1) as usize }
    }
}

pub open spec fn select_file(v: DiffViewV, down: bool) -> DiffViewV {
    let n = v.files.len();
    if n == 0 {
        v
    } else {
        let next = next_file(v.file_cursor, n, down);
        if next != v.file_cursor {
            with_default_message(rebuild_right(DiffViewV { file_cursor: next, row_cursor: 0, active_hunk: None, selected: Seq::empty(), ..v }))
        } else {
            v
        }
    }
}

/// `t`: the other side's diff.
pub open spec fn toggle_staged(v: DiffViewV) -> (DiffViewV, CmdV) {
    run(DiffViewV { staged: !v.staged, file_cursor: 0, row_cursor: 0, focus: Focus::Files, ..v }, OpV::Diff(!v.staged), PendingV::Reload)
}

/// Space on the file list: the whole file.
pub open spec fn stage_whole_file(v: DiffViewV) -> (DiffViewV, CmdV) {
    if v.file_cursor < v.files.len() {
        let path = v.files[v.file_cursor as int].path;
        let after = "已"@ + act_name(v.staged) + "整个文件 "@ + path;
        run(v, if v.staged { OpV::Unstage(seq![path]) } else { OpV::Stage(seq![path]) }, PendingV::Changing(after))
    } else {
        done(v, Action::Nothing)
    }
}

/// `sel` with `x` removed.
pub open spec fn drop_value(sel: Seq<usize>, x: usize) -> Seq<usize>
    decreases sel.len(),
{
    if sel.len() == 0 {
        sel
    } else if sel.last() == x {
        drop_value(sel.drop_last(), x)
    } else {
        drop_value(sel.drop_last(), x).push(sel.last())
    }
}

/// Space in the diff: on a line, pick it (or unpick it; picking in another hunk starts
/// over); on a header, apply the whole hunk.
pub open spec fn space_in_diff(v: DiffViewV) -> (DiffViewV, CmdV) {
    if v.row_cursor >= v.rows.len() {
        done(v, Action::Nothing)
    } else {
        let (_, _, hi, li) = v.rows[v.row_cursor as int];
        match li {
            Some(l) => {
                let sel0 = if v.active_hunk != Some(hi) { Seq::empty() } else { v.selected };
                let sel1 = if sel0.contains(l) { drop_value(sel0, l) } else { sel0.push(l) };
                if sel1.len() == 0 {
                    done(with_default_message(DiffViewV { selected: sel1, active_hunk: None, ..v }), Action::Nothing)
                } else {
                    done(DiffViewV { selected: sel1, active_hunk: Some(hi), message: selection_message(v.staged, sel1.len()), ..v }, Action::Nothing)
                }
            },
            None => if v.file_cursor < v.files.len() && hi < v.files[v.file_cursor as int].hunks.len() {
                let path = v.files[v.file_cursor as int].path;
                let after = "已"@ + act_name(v.staged) + " "@ + path + " 的一个 hunk"@;
                run(v, if v.staged { OpV::UnstageHunk(v.file_cursor, hi) } else { OpV::StageHunk(v.file_cursor, hi) }, PendingV::Changing(after))
            } else {
                done(v, Action::Nothing)
            },
        }
    }
}

/// `s`: apply the picked lines.
pub open spec fn apply_selected(v: DiffViewV) -> (DiffViewV, CmdV) {
    match v.active_hunk {
        Some(h) if v.selected.len() > 0 => if v.file_cursor < v.files.len() && h < v.files[v.file_cursor as int].hunks.len() {
            let after = "已"@ + act_name(v.staged) + " "@ + decimal(v.selected.len()) + " 行"@;
            run(v, if v.staged { OpV::UnstageLines(v.file_cursor, h, v.selected) } else { OpV::StageLines(v.file_cursor, h, v.selected) }, PendingV::Changing(after))
        } else {
            done(v, Action::Nothing)
        },
        _ => done(DiffViewV { message: "未选中行(在 +/- 行上按 Space 选择,再按 s)"@, ..v }, Action::Nothing),
    }
}

pub open spec fn files_key(v: DiffViewV, c: char) -> (DiffViewV, CmdV) {
    if c == 'q' || c == '\x1b' {
        done(v, Action::Back)
    } else if c == 'j' || c == DOWN {
        done(select_file(v, true), Action::Nothing)
    } else if c == 'k' || c == UP {
        done(select_file(v, false), Action::Nothing)
    } else if c == 'l' || c == RIGHT || c == '\n' || c == '\r' {
        if v.rows.len() > 0 {
            done(with_default_message(DiffViewV { focus: Focus::Diff, ..v }), Action::Nothing)
        } else {
            done(v, Action::Nothing)
        }
    } else if c == 't' {
        toggle_staged(v)
    } else if c == ' ' {
        stage_whole_file(v)
    } else {
        done(v, Action::Nothing)
    }
}

pub open spec fn diff_key(v: DiffViewV, c: char) -> (DiffViewV, CmdV) {
    if c == 'q' || c == '\x1b' || c == 'h' || c == LEFT {
        done(with_default_message(DiffViewV { focus: Focus::Files, ..v }), Action::Nothing)
    } else if (c == 'j' || c == DOWN) && v.row_cursor + 1 < v.rows.len() {
        done(DiffViewV { row_cursor: (v.row_cursor + 1) as usize, ..v }, Action::Nothing)
    } else if (c == 'k' || c == UP) && v.row_cursor > 0 {
        done(DiffViewV { row_cursor: (v.row_cursor - 1) as usize, ..v }, Action::Nothing)
    } else if c == ' ' {
        space_in_diff(v)
    } else if c == 's' {
        apply_selected(v)
    } else if c == 't' {
        toggle_staged(v)
    } else {
        done(v, Action::Nothing)
    }
}

/// Key `c`, by focus.
pub open spec fn key_spec(v: DiffViewV, c: char) -> (DiffViewV, CmdV) {
    match v.focus {
        Focus::Files => files_key(v, c),
        Focus::Diff => diff_key(v, c),
    }
}

/// The result `r` of the work the view waits for. A result that does not answer it
/// leaves the view as it is.
pub open spec fn reply_spec(v: DiffViewV, r: ReplyV) -> (DiffViewV, CmdV) {
    match (v.pending, r) {
        (PendingV::Reload, ReplyV::Diffs(Ok(fs))) => done(reload(v, fs), Action::Nothing),
        (PendingV::Changing(m), ReplyV::Changed(Ok(()))) => run(v, OpV::Diff(v.staged), PendingV::ReloadThen(m)),
        (PendingV::ReloadThen(m), ReplyV::Diffs(Ok(fs))) => done(DiffViewV { message: m, ..reload(v, fs) }, Action::Nothing),
        (PendingV::Reload, ReplyV::Diffs(Err(e))) => fail(v, e),
        (PendingV::Changing(_), ReplyV::Changed(Err(e))) => fail(v, e),
        (PendingV::ReloadThen(_), ReplyV::Diffs(Err(e))) => fail(v, e),
        _ => done(v, Action::Nothing),
    }
}

// ───────────────────────── code ─────────────────────────

fn file_rows(f: &FileDiff) -> (r: Vec<DiffRow>)
    ensures
        diff_rows_view(r@) == hunks_rows(f.view().hunks, f.hunks@.len() as int),
{
    let ghost hv = hunks_view(f.hunks@);
    let mut out: Vec<DiffRow> = Vec::new();
    let mut h: usize = 0;
    while h < f.hunks.len()
        invariant
            h <= f.hunks.len(),
            hv == hunks_view(f.hunks@),
            hv == f.view().hunks,
            diff_rows_view(out@) == hunks_rows(hv, h as int),
        decreases f.hunks.len() - h,
    {
        let hk = &f.hunks[h];
        assert(hv[h as int] == hk.view());
        let ghost start = diff_rows_view(out@);
        out.push(DiffRow { text: hunk_header_exec(hk), kind: RowKind::HunkHeader, hunk_idx: h, line_idx: None });
        let ghost lsv = dlines_view(hk.lines@);
        let mut i: usize = 0;
        while i < hk.lines.len()
            invariant
                i <= hk.lines.len(),
                lsv == dlines_view(hk.lines@),
                lsv == hk.view().lines,
                diff_rows_view(out@) == start + seq![(hunk_header(hk.view()), RowKind::HunkHeader, h, None::<usize>)]
                    + lines_rows(lsv, h, i as int),
            decreases hk.lines.len() - i,
        {
            let ghost before = diff_rows_view(out@);
            let l = &hk.lines[i];
            assert(lsv[i as int] == (l.kind, l.content@));
            let (prefix, kind) = match l.kind {
                LineKind::Context => (" ", RowKind::Context),
                LineKind::Added => ("+", RowKind::Added),
                LineKind::Removed => ("-", RowKind::Removed),
            };
            proof {
                reveal_strlit(" ");
                reveal_strlit("+");
                reveal_strlit("-");
                assert(" "@ =~= seq![' ']);
                assert("+"@ =~= seq!['+']);
                assert("-"@ =~= seq!['-']);
            }
            out.push(DiffRow { text: crate::ui::cat2(prefix, l.content.as_str()), kind, hunk_idx: h, line_idx: Some(i) });
            assert(diff_rows_view(out@) =~= before.push(line_row(lsv[i as int], h, i)));
            i = i + 1;
        }
        assert(hunks_rows(hv, h + 1) =~= hunks_rows(hv, h as int) + hunk_rows(hv[h as int], h));
        h = h + 1;
    }
    out
}

fn contains_value(sel: &Vec<usize>, x: usize) -> (r: bool)
    ensures
        r == sel@.contains(x),
{
    let mut i: usize = 0;
    while i < sel.len()
        invariant
            i <= sel.len(),
            forall|j: int| 0 <= j < i ==> sel@[j] != x,
        decreases sel.len() - i,
    {
        if sel[i] == x {
            return true;
        }
        i = i + 1;
    }
    false
}

fn drop_value_exec(sel: &Vec<usize>, x: usize) -> (r: Vec<usize>)
    ensures
        r@ == drop_value(sel@, x),
{
    let mut r: Vec<usize> = Vec::new();
    let mut i: usize = 0;
    while i < sel.len()
        invariant
            i <= sel.len(),
            r@ == drop_value(sel@.take(i as int), x),
        decreases sel.len() - i,
    {
        assert(sel@.take(i + 1).drop_last() =~= sel@.take(i as int));
        if sel[i] != x {
            r.push(sel[i]);
        }
        i = i + 1;
    }
    assert(sel@.take(sel.len() as int) =~= sel@);
    r
}

fn act_str(staged: bool) -> (r: &'static str)
    ensures
        r@ == act_name(staged),
{
    if staged { "取消暂存" } else { "暂存" }
}

/// Whether a row is one of the picked lines: a line (not a header) of the hunk being
/// picked from, whose index is among the picked ones.
pub open spec fn row_picked(active: Option<usize>, selected: Seq<usize>, row: RowV) -> bool {
    match row.3 {
        Some(li) => active == Some(row.2) && selected.contains(li),
        None => false,
    }
}

/// What the right column shows when the selected file has no rows: a binary file says
/// so, any other says it has no changes; nothing when there are rows.
pub open spec fn diff_placeholder_spec(v: DiffViewV) -> Option<Seq<char>> {
    if v.rows.len() > 0 {
        None
    } else if v.file_cursor < v.files.len() && v.files[v.file_cursor as int].binary {
        Some("(二进制文件)"@)
    } else {
        Some("(无改动)"@)
    }
}

/// What the file list shows when it is empty (by side); nothing when there are files.
pub open spec fn files_placeholder_spec(v: DiffViewV) -> Option<Seq<char>> {
    if v.files.len() > 0 {
        None
    } else if v.staged {
        Some("(暂存区无改动)"@)
    } else {
        Some("(无未暂存改动)"@)
    }
}

/// The title of the view, by side.
pub open spec fn diff_title_spec(staged: bool) -> Seq<char> {
    if staged { " Diff 视图 · 已暂存改动(暂存区 vs HEAD)"@ } else { " Diff 视图 · 未暂存改动(工作区 vs 暂存区)"@ }
}

impl DiffView {
    /// Whether `row` is one of the picked lines (drawn with a mark).
    pub fn is_selected(&self, row: &DiffRow) -> (r: bool)
        ensures
            r == row_picked(self.active_hunk, self.selected@, (row.text@, row.kind, row.hunk_idx, row.line_idx)),
    {
        match row.line_idx {
            None => false,
            Some(li) => {
                if self.active_hunk != Some(row.hunk_idx) {
                    return false;
                }
                let mut i: usize = 0;
                while i < self.selected.len()
                    invariant
                        i <= self.selected.len(),
                        self.active_hunk == Some(row.hunk_idx),
                        row.line_idx == Some(li),
                        forall|j: int| 0 <= j < i ==> self.selected@[j] != li,
                    decreases self.selected.len() - i,
                {
                    if self.selected[i] == li {
                        assert(self.selected@[i as int] == li);
                        assert(self.selected@.contains(li));
                        return true;
                    }
                    i = i + 1;
                }
                false
            },
        }
    }

    /// The right column's text when there are no rows to show.
    pub fn diff_placeholder(&self) -> (r: Option<String>)
        ensures
            match r {
                Some(t) => diff_placeholder_spec(self.view()) == Some(t@),
                None => diff_placeholder_spec(self.view()) is None,
            },
    {
        if self.rows.len() > 0 {
            return None;
        }
        let binary = self.file_cursor < self.files.len() && self.files[self.file_cursor].binary;
        proof {
            if self.file_cursor < self.files.len() {
                assert(files_view(self.files@)[self.file_cursor as int].binary == self.files@[self.file_cursor as int].binary);
            }
        }
        Some(s(if binary { "(二进制文件)" } else { "(无改动)" }))
    }

    /// The file list's text when it is empty.
    pub fn files_placeholder(&self) -> (r: Option<String>)
        ensures
            match r {
                Some(t) => files_placeholder_spec(self.view()) == Some(t@),
                None => files_placeholder_spec(self.view()) is None,
            },
    {
        if self.files.len() > 0 {
            None
        } else {
            Some(s(if self.staged { "(暂存区无改动)" } else { "(无未暂存改动)" }))
        }
    }

    /// The view's title.
    pub fn title(&self) -> (r: String)
        ensures
            r@ == diff_title_spec(self.staged),
    {
        s(if self.staged { " Diff 视图 · 已暂存改动(暂存区 vs HEAD)" } else { " Diff 视图 · 未暂存改动(工作区 vs 暂存区)" })
    }

    /// The view of the unstaged changes `files`.
    pub fn load(files: Vec<FileDiff>) -> (r: DiffView)
        ensures
            r.view() == reload(initial(), files_view(files@)),
    {
        let mut v = DiffView {
            staged: false,
            files: Vec::new(),
            file_cursor: 0,
            focus: Focus::Files,
            rows: Vec::new(),
            row_cursor: 0,
            active_hunk: None,
            selected: Vec::new(),
            message: String::new(),
            pending: Pending::Idle,
        };
        assert(files_view(v.files@) =~= Seq::<FileV>::empty());
        assert(diff_rows_view(v.rows@) =~= Seq::<RowV>::empty());
        assert(v.selected@ =~= Seq::<usize>::empty());
        assert(v.view() == initial());
        v.reload(files);
        v
    }

    fn rebuild_right(&mut self)
        ensures
            final(self).view() == rebuild_right(old(self).view()),
    {
        if self.file_cursor < self.files.len() {
            assert(files_view(self.files@)[self.file_cursor as int] == self.files@[self.file_cursor as int].view());
            self.rows = file_rows(&self.files[self.file_cursor]);
        } else {
            self.rows = Vec::new();
            assert(diff_rows_view(self.rows@) =~= Seq::<RowV>::empty());
        }
        if self.row_cursor >= self.rows.len() {
            self.row_cursor = if self.rows.len() == 0 { 0 } else { self.rows.len() - 1 };
        }
    }

    fn set_default_message(&mut self)
        ensures
            final(self).view() == with_default_message(old(self).view()),
    {
        let side = if self.staged { "已暂存" } else { "未暂存" };
        let act = act_str(self.staged);
        let mut v = crate::text::chars_of(side);
        match self.focus {
            Focus::Files => {
                crate::text::push_str(&mut v, " · j/k 选文件 · l/Enter 进 diff · Space 暂存整文件 · t 切暂存区 · q 返回");
            },
            Focus::Diff => {
                crate::text::push_str(&mut v, " · j/k 移动 · Space 选行/");
                crate::text::push_str(&mut v, act);
                crate::text::push_str(&mut v, "整 hunk · s ");
                crate::text::push_str(&mut v, act);
                crate::text::push_str(&mut v, "选中行 · h/q 回文件列表");
            },
        }
        self.message = crate::text::string_of(&v);
    }

    fn reload(&mut self, fs: Vec<FileDiff>)
        ensures
            final(self).view() == reload(old(self).view(), files_view(fs@)),
    {
        if self.file_cursor >= fs.len() {
            self.file_cursor = if fs.len() == 0 { 0 } else { fs.len() - 1 };
        }
        self.files = fs;
        self.active_hunk = None;
        self.selected = Vec::new();
        self.rebuild_right();
        if self.rows.len() == 0 {
            self.focus = Focus::Files;
        }
        self.set_default_message();
    }

    fn finish(&mut self, a: Action) -> (r: DiffCmd)
        ensures
            (final(self).view(), r.view()) == done(old(self).view(), a),
    {
        self.pending = Pending::Idle;
        DiffCmd::Finish(Ok(a))
    }

    fn select_file(&mut self, down: bool)
        ensures
            final(self).view() == select_file(old(self).view(), down),
    {
        let n = self.files.len();
        if n == 0 {
            return;
        }
        let c = self.file_cursor;
        let next = if down {
            if c >= n - 1 { n - 1 } else { c + 1 }
        } else {
            if c == 0 { 0 } else if c - 1 > n - 1 { n - 1 } else { c - 1 }
        };
        if next != c {
            self.file_cursor = next;
            self.row_cursor = 0;
            self.active_hunk = None;
            self.selected = Vec::new();
            self.rebuild_right();
            self.set_default_message();
        }
    }

    fn toggle_staged(&mut self) -> (r: DiffCmd)
        ensures
            (final(self).view(), r.view()) == toggle_staged(old(self).view()),
    {
        self.staged = !self.staged;
        self.file_cursor = 0;
        self.row_cursor = 0;
        self.focus = Focus::Files;
        self.pending = Pending::Reload;
        DiffCmd::Run(DiffOp::Diff(self.staged))
    }

    fn stage_whole_file(&mut self) -> (r: DiffCmd)
        ensures
            (final(self).view(), r.view()) == stage_whole_file(old(self).view()),
    {
        if self.file_cursor >= self.files.len() {
            return self.finish(Action::Nothing);
        }
        assert(files_view(self.files@)[self.file_cursor as int] == self.files@[self.file_cursor as int].view());
        let path = copy_string(&self.files[self.file_cursor].path);
        let mut m = crate::text::chars_of("已");
        crate::text::push_str(&mut m, act_str(self.staged));
        crate::text::push_str(&mut m, "整个文件 ");
        crate::text::push_str(&mut m, path.as_str());
        self.pending = Pending::Changing(crate::text::string_of(&m));
        let one = vec![path];
        assert(strs(one@) =~= seq![one@[0]@]);
        if self.staged { DiffCmd::Run(DiffOp::Unstage(one)) } else { DiffCmd::Run(DiffOp::Stage(one)) }
    }

    fn space_in_diff(&mut self) -> (r: DiffCmd)
        ensures
            (final(self).view(), r.view()) == space_in_diff(old(self).view()),
    {
        if self.row_cursor >= self.rows.len() {
            return self.finish(Action::Nothing);
        }
        let hi = self.rows[self.row_cursor].hunk_idx;
        let li = self.rows[self.row_cursor].line_idx;
        assert(diff_rows_view(self.rows@)[self.row_cursor as int].2 == hi);
        assert(diff_rows_view(self.rows@)[self.row_cursor as int].3 == li);
        match li {
            Some(l) => {
                if self.active_hunk != Some(hi) {
                    self.selected = Vec::new();
                }
                if contains_value(&self.selected, l) {
                    self.selected = drop_value_exec(&self.selected, l);
                } else {
                    self.selected.push(l);
                }
                if self.selected.len() == 0 {
                    self.active_hunk = None;
                    self.set_default_message();
                } else {
                    self.active_hunk = Some(hi);
                    let mut m = crate::text::chars_of("已选 ");
                    crate::text::push_decimal(&mut m, self.selected.len() as u64);
                    crate::text::push_str(&mut m, " 行 · s ");
                    crate::text::push_str(&mut m, act_str(self.staged));
                    crate::text::push_str(&mut m, "选中行 · Space 继续选/取消选");
                    self.message = crate::text::string_of(&m);
                }
                self.finish(Action::Nothing)
            },
            None => {
                if self.file_cursor < self.files.len() && hi < self.files[self.file_cursor].hunks.len() {
                    assert(files_view(self.files@)[self.file_cursor as int] == self.files@[self.file_cursor as int].view());
                    let mut m = crate::text::chars_of("已");
                    crate::text::push_str(&mut m, act_str(self.staged));
                    crate::text::push_str(&mut m, " ");
                    crate::text::push_str(&mut m, self.files[self.file_cursor].path.as_str());
                    crate::text::push_str(&mut m, " 的一个 hunk");
                    self.pending = Pending::Changing(crate::text::string_of(&m));
                    if self.staged {
                        DiffCmd::Run(DiffOp::UnstageHunk(self.file_cursor, hi))
                    } else {
                        DiffCmd::Run(DiffOp::StageHunk(self.file_cursor, hi))
                    }
                } else {
                    proof {
                        if self.file_cursor < self.files.len() {
                            assert(files_view(self.files@)[self.file_cursor as int] == self.files@[self.file_cursor as int].view());
                        }
                    }
                    self.finish(Action::Nothing)
                }
            },
        }
    }

    fn apply_selected(&mut self) -> (r: DiffCmd)
        ensures
            (final(self).view(), r.view()) == apply_selected(old(self).view()),
    {
        match self.active_hunk {
            Some(h) if self.selected.len() > 0 => {
                if self.file_cursor < self.files.len() && h < self.files[self.file_cursor].hunks.len() {
                    assert(files_view(self.files@)[self.file_cursor as int] == self.files@[self.file_cursor as int].view());
                    let mut m = crate::text::chars_of("已");
                    crate::text::push_str(&mut m, act_str(self.staged));
                    crate::text::push_str(&mut m, " ");
                    crate::text::push_decimal(&mut m, self.selected.len() as u64);
                    crate::text::push_str(&mut m, " 行");
                    self.pending = Pending::Changing(crate::text::string_of(&m));
                    let sel = self.selected.clone();
                    if self.staged {
                        DiffCmd::Run(DiffOp::UnstageLines(self.file_cursor, h, sel))
                    } else {
                        DiffCmd::Run(DiffOp::StageLines(self.file_cursor, h, sel))
                    }
                } else {
                    proof {
                        if self.file_cursor < self.files.len() {
                            assert(files_view(self.files@)[self.file_cursor as int] == self.files@[self.file_cursor as int].view());
                        }
                    }
                    self.finish(Action::Nothing)
                }
            },
            _ => {
                self.message = s("未选中行(在 +/- 行上按 Space 选择,再按 s)");
                self.finish(Action::Nothing)
            },
        }
    }

    fn files_key(&mut self, c: char) -> (r: DiffCmd)
        requires
            old(self).focus == Focus::Files,
        ensures
            (final(self).view(), r.view()) == files_key(old(self).view(), c),
    {
        if c == 'q' || c == '\x1b' {
            return self.finish(Action::Back);
        }
        if c == 'j' || c == DOWN {
            self.select_file(true);
            return self.finish(Action::Nothing);
        }
        if c == 'k' || c == UP {
            self.select_file(false);
            return self.finish(Action::Nothing);
        }
        if c == 'l' || c == RIGHT || c == '\n' || c == '\r' {
            if self.rows.len() > 0 {
                self.focus = Focus::Diff;
                self.set_default_message();
            }
            return self.finish(Action::Nothing);
        }
        if c == 't' {
            return self.toggle_staged();
        }
        if c == ' ' {
            return self.stage_whole_file();
        }
        self.finish(Action::Nothing)
    }

    fn diff_key(&mut self, c: char) -> (r: DiffCmd)
        requires
            old(self).focus == Focus::Diff,
        ensures
            (final(self).view(), r.view()) == diff_key(old(self).view(), c),
    {
        if c == 'q' || c == '\x1b' || c == 'h' || c == LEFT {
            self.focus = Focus::Files;
            self.set_default_message();
            return self.finish(Action::Nothing);
        }
        if (c == 'j' || c == DOWN) && can_go_down(self.row_cursor, self.rows.len()) {
            self.row_cursor = self.row_cursor + 1;
            return self.finish(Action::Nothing);
        }
        if (c == 'k' || c == UP) && self.row_cursor > 0 {
            self.row_cursor = self.row_cursor - 1;
            return self.finish(Action::Nothing);
        }
        if c == ' ' {
            return self.space_in_diff();
        }
        if c == 's' {
            return self.apply_selected();
        }
        if c == 't' {
            return self.toggle_staged();
        }
        self.finish(Action::Nothing)
    }

    /// Key `c`: the view's next state, and the git work it needs or how the key ends.
    pub fn handle_key(&mut self, c: char) -> (r: DiffCmd)
        ensures
            (final(self).view(), r.view()) == key_spec(old(self).view(), c),
    {
        match self.focus {
            Focus::Files => self.files_key(c),
            Focus::Diff => self.diff_key(c),
        }
    }

    /// The result of the git work the view asked for.
    pub fn on_reply(&mut self, r: DiffReply) -> (cmd: DiffCmd)
        ensures
            (final(self).view(), cmd.view()) == reply_spec(old(self).view(), r.view()),
    {
        let mut pending = Pending::Idle;
        std::mem::swap(&mut pending, &mut self.pending);
        match (pending, r) {
            (Pending::Reload, DiffReply::Diffs(Ok(fs))) => {
                self.reload(fs);
                DiffCmd::Finish(Ok(Action::Nothing))
            },
            (Pending::Changing(m), DiffReply::Changed(Ok(()))) => {
                self.pending = Pending::ReloadThen(m);
                DiffCmd::Run(DiffOp::Diff(self.staged))
            },
            (Pending::ReloadThen(m), DiffReply::Diffs(Ok(fs))) => {
                self.reload(fs);
                self.message = m;
                DiffCmd::Finish(Ok(Action::Nothing))
            },
            (Pending::Reload, DiffReply::Diffs(Err(e))) => DiffCmd::Finish(Err(e)),
            (Pending::Changing(_), DiffReply::Changed(Err(e))) => DiffCmd::Finish(Err(e)),
            (Pending::ReloadThen(_), DiffReply::Diffs(Err(e))) => DiffCmd::Finish(Err(e)),
            _ => DiffCmd::Finish(Ok(Action::Nothing)),
        }
    }
}

} // verus!
