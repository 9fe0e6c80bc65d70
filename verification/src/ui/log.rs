//! The history view: the commit list with its branch graph, and a commit's details (its
//! message and its changed files on the left, the selected item's text or diff on the
//! right).
use vstd::prelude::*;
use crate::log::{GraphRow, graph_rows_view};
use crate::hunk::{FileDiff, FileV, HunkV, LineKind, files_view, hunks_view, dlines_view};
use crate::error::{Error, ErrorV, error_text};
use crate::text::{lines, decimal, views};
use crate::repo::{copy_string, s};
use crate::ui::{DOWN, UP, LEFT, RIGHT, with_error};

verus! {

/// What a key in the history view ends in.
#[derive(Debug, Clone, Copy, PartialEq, Eq, Structural)]
pub enum Action {
    Nothing,
    Back,
}

/// Which column of the details has the keys.
#[derive(Debug, Clone, Copy, PartialEq, Eq, Structural)]
pub enum Focus {
    Files,
    Content,
}

/// The kind of a line of the right column.
#[derive(Debug, Clone, Copy, PartialEq, Eq, Structural)]
pub enum RowKind {
    /// Message text.
    Plain,
    HunkHeader,
    Context,
    Added,
    Removed,
}

pub struct DetailRow {
    pub text: String,
    pub kind: RowKind,
}

/// A commit's details.
pub struct Detail {
    pub sha: String,
    pub message_text: String,
    pub files: Vec<FileDiff>,
    /// 0 is the message; `i` from 1 is `files[i - 1]`.
    pub sel: usize,
    pub focus: Focus,
    /// The right column's lines for the selected item.
    pub rows: Vec<DetailRow>,
    pub row_cursor: usize,
}

pub enum Mode {
    List,
    Detail(Detail),
}

/// The git work the view asks for.
pub enum LogOp {
    /// The full message of a commit.
    CommitMessage(String),
    /// The files a commit changed, with their diffs.
    CommitFiles(String),
}

/// The result of that work.
pub enum LogReply {
    Message(Result<String, Error>),
    Files(Result<Vec<FileDiff>, Error>),
}

pub enum LogCmd {
    Run(LogOp),
    Finish(Result<Action, Error>),
}

/// The work the view is waiting for.
pub enum Pending {
    Idle,
    /// The message of this commit.
    Message(String),
    /// The files of this commit, whose message is known.
    Files(String, String),
}

pub struct LogView {
    pub rows: Vec<GraphRow>,
    /// In the list, always on a commit row (when there is one).
    pub cursor: usize,
    pub mode: Mode,
    pub message: String,
    pub pending: Pending,
}

// ───────────────────────── model ─────────────────────────

pub type GraphRowV = (Seq<char>, Option<(Seq<char>, Seq<char>, Seq<char>, Seq<char>, Seq<char>)>);

pub struct DetailV {
    pub sha: Seq<char>,
    pub message_text: Seq<char>,
    pub files: Seq<FileV>,
    pub sel: usize,
    pub focus: Focus,
    pub rows: Seq<(Seq<char>, RowKind)>,
    pub row_cursor: usize,
}

pub enum ModeV {
    List,
    Detail(DetailV),
}

pub enum OpV {
    CommitMessage(Seq<char>),
    CommitFiles(Seq<char>),
}

pub enum ReplyV {
    Message(Result<Seq<char>, ErrorV>),
    Files(Result<Seq<FileV>, ErrorV>),
}

pub enum CmdV {
    Run(OpV),
    Finish(Result<Action, ErrorV>),
}

pub enum PendingV {
    Idle,
    Message(Seq<char>),
    Files(Seq<char>, Seq<char>),
}

pub struct LogViewV {
    pub rows: Seq<GraphRowV>,
    pub cursor: usize,
    pub mode: ModeV,
    pub message: Seq<char>,
    pub pending: PendingV,
}

pub open spec fn detail_rows_view(v: Seq<DetailRow>) -> Seq<(Seq<char>, RowKind)> {
    v.map_values(|r: DetailRow| (r.text@, r.kind))
}

impl Detail {
    pub open spec fn view(&self) -> DetailV {
        DetailV {
            sha: self.sha@,
            message_text: self.message_text@,
            files: files_view(self.files@),
            sel: self.sel,
            focus: self.focus,
            rows: detail_rows_view(self.rows@),
            row_cursor: self.row_cursor,
        }
    }
}

impl Mode {
    pub open spec fn view(&self) -> ModeV {
        match self {
            Mode::List => ModeV::List,
            Mode::Detail(d) => ModeV::Detail(d.view()),
        }
    }
}

impl LogOp {
    pub open spec fn view(&self) -> OpV {
        match self {
            LogOp::CommitMessage(s) => OpV::CommitMessage(s@),
            LogOp::CommitFiles(s) => OpV::CommitFiles(s@),
        }
    }
}

impl LogReply {
    pub open spec fn view(&self) -> ReplyV {
        match self {
            LogReply::Message(Ok(m)) => ReplyV::Message(Ok(m@)),
            LogReply::Message(Err(e)) => ReplyV::Message(Err(e.view())),
            LogReply::Files(Ok(f)) => ReplyV::Files(Ok(files_view(f@))),
            LogReply::Files(Err(e)) => ReplyV::Files(Err(e.view())),
        }
    }
}

impl LogCmd {
    pub open spec fn view(&self) -> CmdV {
        match self {
            LogCmd::Run(op) => CmdV::Run(op.view()),
            LogCmd::Finish(Ok(a)) => CmdV::Finish(Ok(*a)),
            LogCmd::Finish(Err(e)) => CmdV::Finish(Err(e.view())),
        }
    }
}

impl Pending {
    pub open spec fn view(&self) -> PendingV {
        match self {
            Pending::Idle => PendingV::Idle,
            Pending::Message(s) => PendingV::Message(s@),
            Pending::Files(s, m) => PendingV::Files(s@, m@),
        }
    }
}

impl LogView {
    pub open spec fn view(&self) -> LogViewV {
        LogViewV {
            rows: graph_rows_view(self.rows@),
            cursor: self.cursor,
            mode: self.mode.view(),
            message: self.message@,
            pending: self.pending.view(),
        }
    }
}

pub open spec fn list_help() -> Seq<char> {
    "j/k 上下 · Enter 查看详情 · q/Esc 返回"@
}

pub open spec fn detail_help() -> Seq<char> {
    "j/k 选项 · l/Enter 看内容 · h/q 返回列表"@
}

/// The first commit row at or after `i`.
pub open spec fn commit_from(rs: Seq<GraphRowV>, i: int) -> Option<int>
    decreases rs.len() - i,
{
    if i < 0 || i >= rs.len() {
        None
    } else if rs[i].1 is Some {
        Some(i)
    } else {
        commit_from(rs, i + 1)
    }
}

/// The last commit row at or before `i` (none when `i` is past the end).
pub open spec fn commit_before(rs: Seq<GraphRowV>, i: int) -> Option<int>
    decreases i + 1,
{
    if i < 0 || i >= rs.len() {
        None
    } else if rs[i].1 is Some {
        Some(i)
    } else {
        commit_before(rs, i - 1)
    }
}

/// The cursor moved to the next (`down`) or previous commit row; it stays when there is
/// none.
pub open spec fn move_spec(rs: Seq<GraphRowV>, cursor: usize, down: bool) -> usize {
    let found = if down { commit_from(rs, cursor + 1) } else { commit_before(rs, cursor - 1) };
    match found {
        Some(j) => j as usize,
        None => cursor,
    }
}

/// A diff line with its ` `, `+` or `-`.
pub open spec fn line_row(l: (LineKind, Seq<char>)) -> (Seq<char>, RowKind) {
    match l.0 {
        LineKind::Context => (seq![' '] + l.1, RowKind::Context),
        LineKind::Added => (seq!['+'] + l.1, RowKind::Added),
        LineKind::Removed => (seq!['-'] + l.1, RowKind::Removed),
    }
}

/// A hunk's `@@ -old +new @@ heading` line.
pub open spec fn hunk_header(h: HunkV) -> Seq<char> {
    "@@ -"@ + decimal(h.old_start as nat) + " +"@ + decimal(h.new_start as nat) + " @@"@
        + if h.heading.len() == 0 { Seq::empty() } else { seq![' '] + h.heading }
}

pub open spec fn hunk_rows(h: HunkV) -> Seq<(Seq<char>, RowKind)> {
    seq![(hunk_header(h), RowKind::HunkHeader)] + h.lines.map_values(|l: (LineKind, Seq<char>)| line_row(l))
}

pub open spec fn hunks_rows(hs: Seq<HunkV>, n: int) -> Seq<(Seq<char>, RowKind)>
    decreases n,
{
    if n <= 0 { Seq::empty() } else { hunks_rows(hs, n - 1) + hunk_rows(hs[n - 1]) }
}

/// The right column for item `sel`: the message's lines, or the file's diff lines (one
/// line for a binary file).
pub open spec fn detail_rows_spec(sel: usize, message_text: Seq<char>, files: Seq<FileV>) -> Seq<(Seq<char>, RowKind)> {
    if sel == 0 {
        lines(message_text).map_values(|l: Seq<char>| (l, RowKind::Plain))
    } else if sel - 1 >= files.len() {
        Seq::empty()
    } else {
        let f = files[sel - 1];
        if f.binary {
            seq![("(二进制文件)"@, RowKind::Plain)]
        } else {
            hunks_rows(f.hunks, f.hunks.len() as int)
        }
    }
}

/// The item `sel` moved by one (`down` or up), kept among the message and the files.
pub open spec fn select_spec(sel: usize, nfiles: nat, down: bool) -> usize {
    if down {
        if sel >= nfiles { nfiles as usize } else { (sel + 1) as usize }
    } else {
        if sel == 0 { 0 } else if sel - 1 > nfiles { nfiles as usize } else { (sel - 1) as usize }
    }
}

pub open spec fn detail_select(d: DetailV, down: bool) -> DetailV {
    let next = select_spec(d.sel, d.files.len(), down);
    if next != d.sel {
        DetailV { sel: next, row_cursor: 0, rows: detail_rows_spec(next, d.message_text, d.files), ..d }
    } else {
        d
    }
}

pub open spec fn done(v: LogViewV, a: Action) -> (LogViewV, CmdV) {
    (LogViewV { pending: PendingV::Idle, ..v }, CmdV::Finish(Ok(a)))
}

pub open spec fn list_key(v: LogViewV, c: char) -> (LogViewV, CmdV) {
    if c == 'q' || c == '\x1b' {
        done(v, Action::Back)
    } else if c == 'j' || c == DOWN {
        done(LogViewV { cursor: move_spec(v.rows, v.cursor, true), ..v }, Action::Nothing)
    } else if c == 'k' || c == UP {
        done(LogViewV { cursor: move_spec(v.rows, v.cursor, false), ..v }, Action::Nothing)
    } else if (c == '\n' || c == '\r') && v.cursor < v.rows.len() && v.rows[v.cursor as int].1 is Some {
        let sha = v.rows[v.cursor as int].1->Some_0.1;
        (LogViewV { pending: PendingV::Message(sha), ..v }, CmdV::Run(OpV::CommitMessage(sha)))
    } else {
        done(v, Action::Nothing)
    }
}

pub open spec fn detail_key(v: LogViewV, d: DetailV, c: char) -> (LogViewV, CmdV) {
    let back = c == 'q' || c == '\x1b' || c == 'h' || c == LEFT;
    match d.focus {
        Focus::Files => if back {
            done(LogViewV { mode: ModeV::List, message: list_help(), ..v }, Action::Nothing)
        } else if c == 'j' || c == DOWN {
            done(LogViewV { mode: ModeV::Detail(detail_select(d, true)), ..v }, Action::Nothing)
        } else if c == 'k' || c == UP {
            done(LogViewV { mode: ModeV::Detail(detail_select(d, false)), ..v }, Action::Nothing)
        } else if (c == 'l' || c == RIGHT || c == '\n' || c == '\r') && d.rows.len() > 0 {
            done(LogViewV { mode: ModeV::Detail(DetailV { focus: Focus::Content, ..d }), ..v }, Action::Nothing)
        } else {
            done(v, Action::Nothing)
        },
        Focus::Content => if back {
            done(LogViewV { mode: ModeV::Detail(DetailV { focus: Focus::Files, ..d }), ..v }, Action::Nothing)
        } else if (c == 'j' || c == DOWN) && d.row_cursor + 1 < d.rows.len() {
            done(LogViewV { mode: ModeV::Detail(DetailV { row_cursor: (d.row_cursor + 1) as usize, ..d }), ..v }, Action::Nothing)
        } else if (c == 'k' || c == UP) && d.row_cursor > 0 {
            done(LogViewV { mode: ModeV::Detail(DetailV { row_cursor: (d.row_cursor - 1) as usize, ..d }), ..v }, Action::Nothing)
        } else {
            done(v, Action::Nothing)
        },
    }
}

/// Key `c`, by mode.
pub open spec fn key_spec(v: LogViewV, c: char) -> (LogViewV, CmdV) {
    match v.mode {
        ModeV::List => list_key(v, c),
        ModeV::Detail(d) => detail_key(v, d, c),
    }
}

/// The result `r` of the work the view waits for: a commit's message (an unreadable one
/// is empty), then its files, which open the details.
pub open spec fn reply_spec(v: LogViewV, r: ReplyV) -> (LogViewV, CmdV) {
    match (v.pending, r) {
        (PendingV::Message(sha), ReplyV::Message(m)) => {
            let text = match m { Ok(t) => t, Err(_) => Seq::empty() };
            (LogViewV { pending: PendingV::Files(sha, text), ..v }, CmdV::Run(OpV::CommitFiles(sha)))
        },
        (PendingV::Files(sha, text), ReplyV::Files(Ok(files))) => done(LogViewV {
            mode: ModeV::Detail(DetailV {
                sha,
                message_text: text,
                files,
                sel: 0,
                focus: Focus::Files,
                rows: detail_rows_spec(0, text, files),
                row_cursor: 0,
            }),
            message: detail_help(),
            ..v
        }, Action::Nothing),
        (PendingV::Files(_, _), ReplyV::Files(Err(e))) => done(LogViewV { message: "加载失败: "@ + error_text(e), ..v }, Action::Nothing),
        _ => done(v, Action::Nothing),
    }
}

// ───────────────────────── code ─────────────────────────

fn first_commit(rows: &Vec<GraphRow>, i: usize) -> (r: Option<usize>)
    ensures
        match r {
            Some(j) => commit_from(graph_rows_view(rows@), i as int) == Some(j as int),
            None => commit_from(graph_rows_view(rows@), i as int) is None,
        },
    decreases rows.len() - i,
{
    let ghost rv = graph_rows_view(rows@);
    if i >= rows.len() {
        return None;
    }
    assert(rv[i as int].1 is Some == rows@[i as int].entry is Some);
    if rows[i].entry.is_some() {
        Some(i)
    } else {
        first_commit(rows, i + 1)
    }
}

fn last_commit(rows: &Vec<GraphRow>, i: usize) -> (r: Option<usize>)
    ensures
        match r {
            Some(j) => commit_before(graph_rows_view(rows@), i as int) == Some(j as int),
            None => commit_before(graph_rows_view(rows@), i as int) is None,
        },
    decreases i,
{
    let ghost rv = graph_rows_view(rows@);
    if i >= rows.len() {
        return None;
    }
    assert(rv[i as int].1 is Some == rows@[i as int].entry is Some);
    if rows[i].entry.is_some() {
        Some(i)
    } else if i == 0 {
        None
    } else {
        last_commit(rows, i - 1)
    }
}

fn move_cursor(rows: &Vec<GraphRow>, cursor: usize, down: bool) -> (r: usize)
    ensures
        r == move_spec(graph_rows_view(rows@), cursor, down),
{
    let found = if down {
        if cursor >= rows.len() { None } else { first_commit(rows, cursor + 1) }
    } else {
        if cursor == 0 { None } else { last_commit(rows, cursor - 1) }
    };
    match found {
        Some(j) => j,
        None => cursor,
    }
}

fn line_row_exec(l: &crate::hunk::DiffLine) -> (r: DetailRow)
    ensures
        (r.text@, r.kind) == line_row((l.kind, l.content@)),
{
    let (prefix, kind) = match l.kind {
        LineKind::Context => (" ", RowKind::Context),
        LineKind::Added => ("+", RowKind::Added),
        LineKind::Removed => ("-", RowKind::Removed),
    };
    proof {
        reveal_strlit(" ");
        reveal_strlit("+");
        reveal_strlit("-");
    }
    DetailRow { text: crate::ui::cat2(prefix, l.content.as_str()), kind }
}

pub(crate) fn hunk_header_exec(h: &crate::hunk::Hunk) -> (r: String)
    ensures
        r@ == hunk_header(h.view()),
{
    let mut v = crate::text::chars_of("@@ -");
    crate::text::push_decimal(&mut v, h.old_start as u64);
    crate::text::push_str(&mut v, " +");
    crate::text::push_decimal(&mut v, h.new_start as u64);
    crate::text::push_str(&mut v, " @@");
    if crate::text::chars_of(h.heading.as_str()).len() > 0 {
        let ghost before = v@;
        v.push(' ');
        crate::text::push_str(&mut v, h.heading.as_str());
        assert(v@ =~= before + (seq![' '] + h.heading@));
    } else {
        assert(h.heading@.len() == 0);
        assert(v@ =~= v@ + Seq::<char>::empty());
    }
    crate::text::string_of(&v)
}

/// The right column for item `sel` of a commit's details.
pub fn build_detail_rows(sel: usize, message_text: &str, files: &Vec<FileDiff>) -> (r: Vec<DetailRow>)
    ensures
        detail_rows_view(r@) == detail_rows_spec(sel, message_text@, files_view(files@)),
{
    let mut out: Vec<DetailRow> = Vec::new();
    if sel == 0 {
        let ls = crate::text::lines_of(&crate::text::chars_of(message_text));
        let ghost lv = views(ls@);
        let mut i: usize = 0;
        while i < ls.len()
            invariant
                i <= ls.len(),
                lv == views(ls@),
                lv == lines(message_text@),
                detail_rows_view(out@) == lv.take(i as int).map_values(|l: Seq<char>| (l, RowKind::Plain)),
            decreases ls.len() - i,
        {
            let ghost before = detail_rows_view(out@);
            out.push(DetailRow { text: crate::text::string_of(&ls[i]), kind: RowKind::Plain });
            assert(detail_rows_view(out@) =~= before.push((lv[i as int], RowKind::Plain)));
            assert(lv.take(i + 1).map_values(|l: Seq<char>| (l, RowKind::Plain))
                =~= lv.take(i as int).map_values(|l: Seq<char>| (l, RowKind::Plain)).push((lv[i as int], RowKind::Plain)));
            i = i + 1;
        }
        assert(lv.take(ls.len() as int) =~= lv);
        return out;
    }
    if sel - 1 >= files.len() {
        assert(detail_rows_view(out@) =~= Seq::<(Seq<char>, RowKind)>::empty());
        return out;
    }
    let f = &files[sel - 1];
    assert(files_view(files@)[sel - 1] == f.view());
    if f.binary {
        out.push(DetailRow { text: s("(二进制文件)"), kind: RowKind::Plain });
        assert(detail_rows_view(out@) =~= seq![("(二进制文件)"@, RowKind::Plain)]);
        return out;
    }
    let ghost hv = hunks_view(f.hunks@);
    let mut h: usize = 0;
    while h < f.hunks.len()
        invariant
            h <= f.hunks.len(),
            hv == hunks_view(f.hunks@),
            detail_rows_view(out@) == hunks_rows(hv, h as int),
        decreases f.hunks.len() - h,
    {
        let hk = &f.hunks[h];
        assert(hv[h as int] == hk.view());
        let ghost start = detail_rows_view(out@);
        out.push(DetailRow { text: hunk_header_exec(hk), kind: RowKind::HunkHeader });
        let ghost lsv = dlines_view(hk.lines@);
        let mut i: usize = 0;
        while i < hk.lines.len()
            invariant
                i <= hk.lines.len(),
                lsv == dlines_view(hk.lines@),
                detail_rows_view(out@) == start + seq![(hunk_header(hk.view()), RowKind::HunkHeader)]
                    + lsv.take(i as int).map_values(|l: (LineKind, Seq<char>)| line_row(l)),
            decreases hk.lines.len() - i,
        {
            let ghost before = detail_rows_view(out@);
            let row = line_row_exec(&hk.lines[i]);
            assert(lsv[i as int] == (hk.lines@[i as int].kind, hk.lines@[i as int].content@));
            out.push(row);
            assert(detail_rows_view(out@) =~= before.push(line_row(lsv[i as int])));
            assert(lsv.take(i + 1).map_values(|l: (LineKind, Seq<char>)| line_row(l))
                =~= lsv.take(i as int).map_values(|l: (LineKind, Seq<char>)| line_row(l)).push(line_row(lsv[i as int])));
            i = i + 1;
        }
        assert(lsv.take(hk.lines.len() as int) =~= lsv);
        assert(hunks_rows(hv, h + 1) =~= hunks_rows(hv, h as int) + hunk_rows(hv[h as int]));
        h = h + 1;
    }
    out
}

impl LogView {
    /// The history view of `rows`, the cursor on the first commit.
    pub fn load(rows: Vec<GraphRow>) -> (r: LogView)
        ensures
            r.view() == (LogViewV {
                rows: graph_rows_view(rows@),
                cursor: match commit_from(graph_rows_view(rows@), 0) { Some(i) => i as usize, None => 0 },
                mode: ModeV::List,
                message: list_help(),
                pending: PendingV::Idle,
            }),
    {
        let cursor = match first_commit(&rows, 0) {
            Some(i) => i,
            None => 0,
        };
        LogView { rows, cursor, mode: Mode::List, message: s("j/k 上下 · Enter 查看详情 · q/Esc 返回"), pending: Pending::Idle }
    }

    fn finish(&mut self, a: Action) -> (r: LogCmd)
        ensures
            (final(self).view(), r.view()) == done(old(self).view(), a),
    {
        self.pending = Pending::Idle;
        LogCmd::Finish(Ok(a))
    }

    fn list_key(&mut self, c: char) -> (r: LogCmd)
        requires
            old(self).mode is List,
        ensures
            (final(self).view(), r.view()) == list_key(old(self).view(), c),
    {
        if c == 'q' || c == '\x1b' {
            return self.finish(Action::Back);
        }
        if c == 'j' || c == DOWN {
            self.cursor = move_cursor(&self.rows, self.cursor, true);
            return self.finish(Action::Nothing);
        }
        if c == 'k' || c == UP {
            self.cursor = move_cursor(&self.rows, self.cursor, false);
            return self.finish(Action::Nothing);
        }
        if (c == '\n' || c == '\r') && self.cursor < self.rows.len() {
            assert(graph_rows_view(self.rows@)[self.cursor as int] == crate::log::graph_row_view(self.rows@[self.cursor as int]));
            match &self.rows[self.cursor].entry {
                Some(e) => {
                    let sha = copy_string(&e.sha);
                    self.pending = Pending::Message(copy_string(&sha));
                    return LogCmd::Run(LogOp::CommitMessage(sha));
                },
                None => {},
            }
        }
        self.finish(Action::Nothing)
    }

    fn detail_key(&mut self, c: char) -> (r: LogCmd)
        requires
            old(self).mode is Detail,
        ensures
            (final(self).view(), r.view()) == key_spec(old(self).view(), c),
    {
        let back = c == 'q' || c == '\x1b' || c == 'h' || c == LEFT;
        let mut mode = Mode::List;
        std::mem::swap(&mut mode, &mut self.mode);
        let mut d = match mode {
            Mode::Detail(d) => d,
            Mode::List => {
                return self.finish(Action::Nothing);
            },
        };
        match d.focus {
            Focus::Files => {
                if back {
                    self.message = s("j/k 上下 · Enter 查看详情 · q/Esc 返回");
                    return self.finish(Action::Nothing);
                }
                if c == 'j' || c == DOWN || c == 'k' || c == UP {
                    let down = c == 'j' || c == DOWN;
                    let next = if down {
                        if d.sel >= d.files.len() { d.files.len() } else { d.sel + 1 }
                    } else {
                        if d.sel == 0 { 0 } else if d.sel - 1 > d.files.len() { d.files.len() } else { d.sel - 1 }
                    };
                    if next != d.sel {
                        d.sel = next;
                        d.row_cursor = 0;
                        d.rows = build_detail_rows(next, d.message_text.as_str(), &d.files);
                    }
                } else if (c == 'l' || c == RIGHT || c == '\n' || c == '\r') && d.rows.len() > 0 {
                    d.focus = Focus::Content;
                }
            },
            Focus::Content => {
                if back {
                    d.focus = Focus::Files;
                } else if (c == 'j' || c == DOWN) && crate::ui::can_go_down(d.row_cursor, d.rows.len()) {
                    d.row_cursor = d.row_cursor + 1;
                } else if (c == 'k' || c == UP) && d.row_cursor > 0 {
                    d.row_cursor = d.row_cursor - 1;
                }
            },
        }
        self.mode = Mode::Detail(d);
        self.finish(Action::Nothing)
    }

    /// Key `c`: the view's next state, and the git work it needs or how the key ends.
    pub fn handle_key(&mut self, c: char) -> (r: LogCmd)
        ensures
            (final(self).view(), r.view()) == key_spec(old(self).view(), c),
    {
        match self.mode {
            Mode::List => self.list_key(c),
            Mode::Detail(_) => self.detail_key(c),
        }
    }

    /// The result of the git work the view asked for.
    pub fn on_reply(&mut self, r: LogReply) -> (cmd: LogCmd)
        ensures
            (final(self).view(), cmd.view()) == reply_spec(old(self).view(), r.view()),
    {
        let mut pending = Pending::Idle;
        std::mem::swap(&mut pending, &mut self.pending);
        match (pending, r) {
            (Pending::Message(sha), LogReply::Message(m)) => {
                let text = match m {
                    Ok(t) => t,
                    Err(_) => String::new(),
                };
                self.pending = Pending::Files(copy_string(&sha), text);
                LogCmd::Run(LogOp::CommitFiles(sha))
            },
            (Pending::Files(sha, text), LogReply::Files(Ok(files))) => {
                let rows = build_detail_rows(0, text.as_str(), &files);
                self.mode = Mode::Detail(Detail { sha, message_text: text, files, sel: 0, focus: Focus::Files, rows, row_cursor: 0 });
                self.message = s("j/k 选项 · l/Enter 看内容 · h/q 返回列表");
                LogCmd::Finish(Ok(Action::Nothing))
            },
            (Pending::Files(_, _), LogReply::Files(Err(e))) => {
                self.message = with_error("加载失败: ", &e);
                LogCmd::Finish(Ok(Action::Nothing))
            },
            _ => LogCmd::Finish(Ok(Action::Nothing)),
        }
    }
}

} // verus!
