//! The stage view: the changed files as a collapsible directory tree; staging and
//! unstaging a file or a whole directory, staging everything, discarding changes behind a
//! safety stash, and committing.
use vstd::prelude::*;
use crate::status::{FileStatus, FileState, files_view};
use crate::filetree::{RowKind, RowV, TreeRow, rows_view, tree_rows_spec, build_rows, components, components_exec, chars_eq};
use crate::error::{Error, ErrorV, error_text};
use crate::text::{trim, decimal, views};
use crate::repo::{copy_string, s, strs};
use crate::ui::{DOWN, UP, LEFT, RIGHT, down_spec, up_spec, can_go_down, edit_spec, edit_input, cat2, cat3, with_error};
use crate::present::with_number;

verus! {

/// One visible row of the tree.
#[derive(Debug, Clone)]
pub struct StageRow {
    pub depth: usize,
    pub name: String,
    pub path: String,
    pub is_dir: bool,
    pub expanded: bool,
    /// A file's state (`None` on a directory).
    pub state: Option<FileState>,
}

pub struct StageRowV {
    pub depth: usize,
    pub name: Seq<char>,
    pub path: Seq<char>,
    pub is_dir: bool,
    pub expanded: bool,
    pub state: Option<FileState>,
}

impl StageRow {
    pub open spec fn view(&self) -> StageRowV {
        StageRowV { depth: self.depth, name: self.name@, path: self.path@, is_dir: self.is_dir, expanded: self.expanded, state: self.state }
    }
}

pub open spec fn stage_rows_view(v: Seq<StageRow>) -> Seq<StageRowV> {
    v.map_values(|r: StageRow| r.view())
}

pub open spec fn file_paths(fs: Seq<(Seq<char>, FileState)>) -> Seq<Seq<char>> {
    fs.map_values(|f: (Seq<char>, FileState)| f.0)
}

/// A tree row as a stage row: a file row carries its file's state.
pub open spec fn stage_row_of(fs: Seq<(Seq<char>, FileState)>, r: RowV) -> StageRowV {
    match r.kind {
        RowKind::Dir { expanded } => StageRowV { depth: r.depth, name: r.name, path: r.path, is_dir: true, expanded, state: None },
        RowKind::File { index } => StageRowV {
            depth: r.depth,
            name: r.name,
            path: r.path,
            is_dir: false,
            expanded: false,
            state: if index < fs.len() { Some(fs[index as int].1) } else { None },
        },
    }
}

/// The visible rows of the tree of the files `fs`, `collapsed` naming the collapsed
/// directories.
pub open spec fn stage_rows_spec(fs: Seq<(Seq<char>, FileState)>, collapsed: Seq<Seq<char>>) -> Seq<StageRowV> {
    tree_rows_spec(file_paths(fs), collapsed).map_values(|r: RowV| stage_row_of(fs, r))
}

/// The visible rows of the directory tree of `files`: under each directory, directories
/// first, then files, each by name; the content of a collapsed directory is hidden.
pub fn rows_of(files: &[FileStatus], collapsed: &[String]) -> (r: Vec<StageRow>)
    ensures
        stage_rows_view(r@) == stage_rows_spec(files_view(files@), collapsed@.map_values(|x: String| x@)),
{
    let ghost fv = files_view(files@);
    let mut paths: Vec<String> = Vec::new();
    let mut i: usize = 0;
    while i < files.len()
        invariant
            i <= files.len(),
            fv == files_view(files@),
            paths@.map_values(|x: String| x@) == file_paths(fv).take(i as int),
        decreases files.len() - i,
    {
        let ghost before = paths@.map_values(|x: String| x@);
        paths.push(copy_string(&files[i].path));
        assert(paths@.map_values(|x: String| x@) =~= before.push(fv[i as int].0));
        assert(file_paths(fv).take(i + 1) =~= file_paths(fv).take(i as int).push(fv[i as int].0));
        i = i + 1;
    }
    assert(file_paths(fv).take(files.len() as int) =~= file_paths(fv));
    let tree = build_rows(&paths, collapsed);
    let ghost tv = rows_view(tree@);
    let mut out: Vec<StageRow> = Vec::new();
    let mut k: usize = 0;
    while k < tree.len()
        invariant
            k <= tree.len(),
            fv == files_view(files@),
            tv == rows_view(tree@),
            stage_rows_view(out@) == tv.take(k as int).map_values(|r: RowV| stage_row_of(fv, r)),
        decreases tree.len() - k,
    {
        let t = &tree[k];
        assert(tv[k as int] == (RowV { depth: t.depth, name: t.name@, path: t.path@, kind: t.kind }));
        let row = match t.kind {
            RowKind::Dir { expanded } => StageRow {
                depth: t.depth,
                name: copy_string(&t.name),
                path: copy_string(&t.path),
                is_dir: true,
                expanded,
                state: None,
            },
            RowKind::File { index } => StageRow {
                depth: t.depth,
                name: copy_string(&t.name),
                path: copy_string(&t.path),
                is_dir: false,
                expanded: false,
                state: if index < files.len() { Some(files[index].state) } else { None },
            },
        };
        let ghost before = stage_rows_view(out@);
        out.push(row);
        assert(stage_rows_view(out@) =~= before.push(stage_row_of(fv, tv[k as int])));
        assert(tv.take(k + 1).map_values(|r: RowV| stage_row_of(fv, r))
            =~= tv.take(k as int).map_values(|r: RowV| stage_row_of(fv, r)).push(stage_row_of(fv, tv[k as int])));
        k = k + 1;
    }
    assert(tv.take(tree.len() as int) =~= tv);
    out
}

// ───────────────────────── the view ─────────────────────────

/// What a key in the stage view ends in.
pub enum Action {
    Nothing,
    /// A commit was made (its SHA).
    Commit(String),
    Back,
}

#[derive(Debug, Clone, Copy, PartialEq, Eq, Structural)]
pub enum Mode {
    FileList,
    CommitInput,
    ConfirmDiscard,
}

/// The git work the view asks for.
pub enum StageOp {
    Stage(Vec<String>),
    Unstage(Vec<String>),
    StageAll,
    /// Discard these paths' changes (behind a stash).
    Discard(Vec<String>),
    /// Commit the index with this message.
    Commit(String),
    /// Read the working tree's status.
    Status,
}

/// The result of that work.
pub enum StageReply {
    Files(Result<Vec<FileStatus>, Error>),
    Changed(Result<(), Error>),
    Committed(Result<String, Error>),
}

pub enum StageCmd {
    Run(StageOp),
    Finish(Result<Action, Error>),
}

/// The work the view is waiting for.
pub enum Pending {
    Idle,
    /// Staging or unstaging; the message once it is done.
    Staging(String),
    StagingAll,
    /// Discarding so many paths.
    Discarding(usize),
    Committing,
    ReloadStaged,
    ReloadAll,
    ReloadDiscarded,
}

pub struct StageView {
    pub files: Vec<FileStatus>,
    /// The collapsed directories.
    pub collapsed: Vec<String>,
    pub rows: Vec<StageRow>,
    pub cursor: usize,
    pub mode: Mode,
    pub commit_input: Vec<char>,
    /// The paths waiting for the discard to be confirmed.
    pub pending_discard: Option<Vec<String>>,
    pub message: String,
    pub pending: Pending,
}

pub enum ActionV {
    Nothing,
    Commit(Seq<char>),
    Back,
}

pub enum OpV {
    Stage(Seq<Seq<char>>),
    Unstage(Seq<Seq<char>>),
    StageAll,
    Discard(Seq<Seq<char>>),
    Commit(Seq<char>),
    Status,
}

pub enum ReplyV {
    Files(Result<Seq<(Seq<char>, FileState)>, ErrorV>),
    Changed(Result<(), ErrorV>),
    Committed(Result<Seq<char>, ErrorV>),
}

pub enum CmdV {
    Run(OpV),
    Finish(Result<ActionV, ErrorV>),
}

pub enum PendingV {
    Idle,
    Staging(Seq<char>),
    StagingAll,
    Discarding(usize),
    Committing,
    ReloadStaged,
    ReloadAll,
    ReloadDiscarded,
}

pub struct StageViewV {
    pub files: Seq<(Seq<char>, FileState)>,
    pub collapsed: Seq<Seq<char>>,
    pub rows: Seq<StageRowV>,
    pub cursor: usize,
    pub mode: Mode,
    pub commit_input: Seq<char>,
    pub pending_discard: Option<Seq<Seq<char>>>,
    pub message: Seq<char>,
    pub pending: PendingV,
}

impl Action {
    pub open spec fn view(&self) -> ActionV {
        match self {
            Action::Nothing => ActionV::Nothing,
            Action::Commit(sha) => ActionV::Commit(sha@),
            Action::Back => ActionV::Back,
        }
    }
}

impl StageOp {
    pub open spec fn view(&self) -> OpV {
        match self {
            StageOp::Stage(p) => OpV::Stage(strs(p@)),
            StageOp::Unstage(p) => OpV::Unstage(strs(p@)),
            StageOp::StageAll => OpV::StageAll,
            StageOp::Discard(p) => OpV::Discard(strs(p@)),
            StageOp::Commit(m) => OpV::Commit(m@),
            StageOp::Status => OpV::Status,
        }
    }
}

impl StageReply {
    pub open spec fn view(&self) -> ReplyV {
        match self {
            StageReply::Files(Ok(v)) => ReplyV::Files(Ok(files_view(v@))),
            StageReply::Files(Err(e)) => ReplyV::Files(Err(e.view())),
            StageReply::Changed(Ok(())) => ReplyV::Changed(Ok(())),
            StageReply::Changed(Err(e)) => ReplyV::Changed(Err(e.view())),
            StageReply::Committed(Ok(sha)) => ReplyV::Committed(Ok(sha@)),
            StageReply::Committed(Err(e)) => ReplyV::Committed(Err(e.view())),
        }
    }
}

impl StageCmd {
    pub open spec fn view(&self) -> CmdV {
        match self {
            StageCmd::Run(op) => CmdV::Run(op.view()),
            StageCmd::Finish(Ok(a)) => CmdV::Finish(Ok(a.view())),
            StageCmd::Finish(Err(e)) => CmdV::Finish(Err(e.view())),
        }
    }
}

impl Pending {
    pub open spec fn view(&self) -> PendingV {
        match self {
            Pending::Idle => PendingV::Idle,
            Pending::Staging(m) => PendingV::Staging(m@),
            Pending::StagingAll => PendingV::StagingAll,
            Pending::Discarding(n) => PendingV::Discarding(*n),
            Pending::Committing => PendingV::Committing,
            Pending::ReloadStaged => PendingV::ReloadStaged,
            Pending::ReloadAll => PendingV::ReloadAll,
            Pending::ReloadDiscarded => PendingV::ReloadDiscarded,
        }
    }
}

pub open spec fn opt_paths(o: Option<Vec<String>>) -> Option<Seq<Seq<char>>> {
    match o {
        Some(v) => Some(strs(v@)),
        None => None,
    }
}

impl StageView {
    pub open spec fn view(&self) -> StageViewV {
        StageViewV {
            files: files_view(self.files@),
            collapsed: strs(self.collapsed@),
            rows: stage_rows_view(self.rows@),
            cursor: self.cursor,
            mode: self.mode,
            commit_input: self.commit_input@,
            pending_discard: opt_paths(self.pending_discard),
            message: self.message@,
            pending: self.pending.view(),
        }
    }
}

// ───────────────────────── model ─────────────────────────

pub open spec fn help_msg() -> Seq<char> {
    "Space 暂存/取消 · a 全暂存 · d 回滚 · l/h 展开/折叠 · c 提交 · q/Esc 返回"@
}

/// `ps` with every copy of `p` removed.
pub open spec fn without(ps: Seq<Seq<char>>, p: Seq<char>) -> Seq<Seq<char>>
    decreases ps.len(),
{
    if ps.len() == 0 {
        ps
    } else if ps.last() == p {
        without(ps.drop_last(), p)
    } else {
        without(ps.drop_last(), p).push(ps.last())
    }
}

/// `ps` with `p` added unless it is there.
pub open spec fn with(ps: Seq<Seq<char>>, p: Seq<char>) -> Seq<Seq<char>> {
    if ps.contains(p) { ps } else { ps.push(p) }
}

/// Is the path `p` at or below the directory `d` (component by component)?
pub open spec fn is_under(p: Seq<char>, d: Seq<char>) -> bool {
    let pc = components(p);
    let dc = components(d);
    dc.len() <= pc.len() && pc.take(dc.len() as int) == dc
}

/// The paths among `fs[..n]` at or below `d`, in order.
pub open spec fn under_upto(fs: Seq<(Seq<char>, FileState)>, d: Seq<char>, n: int) -> Seq<Seq<char>>
    decreases n,
{
    if n <= 0 {
        Seq::empty()
    } else if is_under(fs[n - 1].0, d) {
        under_upto(fs, d, n - 1).push(fs[n - 1].0)
    } else {
        under_upto(fs, d, n - 1)
    }
}

pub open spec fn under(fs: Seq<(Seq<char>, FileState)>, d: Seq<char>) -> Seq<Seq<char>> {
    under_upto(fs, d, fs.len() as int)
}

/// Are all the files of `fs` at or below `d` staged?
pub open spec fn all_staged(fs: Seq<(Seq<char>, FileState)>, d: Seq<char>) -> bool {
    forall|i: int| 0 <= i < fs.len() && is_under(#[trigger] fs[i].0, d) ==> fs[i].1 == FileState::Staged
}

/// The rows rebuilt from the files and the collapsed directories; a cursor past the end
/// goes to the last row.
pub open spec fn rebuild(v: StageViewV) -> StageViewV {
    let rows = stage_rows_spec(v.files, v.collapsed);
    StageViewV {
        rows,
        cursor: if v.cursor >= rows.len() { if rows.len() == 0 { 0 } else { (rows.len() - 1) as usize } } else { v.cursor },
        ..v
    }
}

pub open spec fn done(v: StageViewV, a: ActionV) -> (StageViewV, CmdV) {
    (StageViewV { pending: PendingV::Idle, ..v }, CmdV::Finish(Ok(a)))
}

pub open spec fn run(v: StageViewV, op: OpV, p: PendingV) -> (StageViewV, CmdV) {
    (StageViewV { pending: p, ..v }, CmdV::Run(op))
}

pub open spec fn fail(v: StageViewV, e: ErrorV) -> (StageViewV, CmdV) {
    (StageViewV { pending: PendingV::Idle, ..v }, CmdV::Finish(Err(e)))
}

/// The directory under the cursor, if the cursor is on one.
pub open spec fn dir_at_cursor(v: StageViewV) -> Option<Seq<char>> {
    if v.cursor < v.rows.len() && v.rows[v.cursor as int].is_dir { Some(v.rows[v.cursor as int].path) } else { None }
}

/// Expanding (`want`) or collapsing the directory under the cursor.
pub open spec fn set_expand(v: StageViewV, want: bool) -> StageViewV {
    match dir_at_cursor(v) {
        Some(p) => rebuild(StageViewV { collapsed: if want { without(v.collapsed, p) } else { with(v.collapsed, p) }, ..v }),
        None => v,
    }
}

pub open spec fn toggle_expand(v: StageViewV) -> StageViewV {
    match dir_at_cursor(v) {
        Some(p) => rebuild(StageViewV {
            collapsed: if v.collapsed.contains(p) { without(v.collapsed, p) } else { with(v.collapsed, p) },
            ..v
        }),
        None => v,
    }
}

/// Space: staging or unstaging the file, or every file of the directory, under the cursor
/// (a directory whose files are all staged is unstaged, otherwise staged).
pub open spec fn toggle_stage(v: StageViewV) -> (StageViewV, CmdV) {
    if v.cursor >= v.rows.len() {
        done(v, ActionV::Nothing)
    } else {
        let r = v.rows[v.cursor as int];
        if r.is_dir {
            let ps = under(v.files, r.path);
            if all_staged(v.files, r.path) {
                run(v, OpV::Unstage(ps), PendingV::Staging("已取消暂存 "@ + r.path + "/ ("@ + decimal(ps.len()) + " 个文件)"@))
            } else {
                run(v, OpV::Stage(ps), PendingV::Staging("已暂存 "@ + r.path + "/ ("@ + decimal(ps.len()) + " 个文件)"@))
            }
        } else {
            match r.state {
                Some(FileState::Staged) | Some(FileState::StagedAndModified) =>
                    run(v, OpV::Unstage(seq![r.path]), PendingV::Staging("已取消暂存 "@ + r.path)),
                Some(_) => run(v, OpV::Stage(seq![r.path]), PendingV::Staging("已暂存 "@ + r.path)),
                None => done(v, ActionV::Nothing),
            }
        }
    }
}

/// `d`: asking to confirm the discard of the file, or every file of the directory, under
/// the cursor.
pub open spec fn begin_discard(v: StageViewV) -> StageViewV {
    if v.cursor >= v.rows.len() {
        v
    } else {
        let r = v.rows[v.cursor as int];
        let ps = if r.is_dir { under(v.files, r.path) } else { seq![r.path] };
        let label = if r.is_dir { "目录 "@ + r.path + "/ 下 "@ + decimal(ps.len()) + " 个文件"@ } else { "文件 "@ + r.path };
        if ps.len() == 0 {
            v
        } else {
            StageViewV {
                pending_discard: Some(ps),
                mode: Mode::ConfirmDiscard,
                message: "确认回滚 "@ + label + "?改动将 stash 兜底,可 pop 找回 [y/n]"@,
                ..v
            }
        }
    }
}

pub open spec fn list_key(v: StageViewV, c: char) -> (StageViewV, CmdV) {
    if c == 'q' || c == '\x1b' {
        done(v, ActionV::Back)
    } else if (c == 'j' || c == DOWN) && v.cursor + 1 < v.rows.len() {
        done(StageViewV { cursor: down_spec(v.cursor, v.rows.len()), ..v }, ActionV::Nothing)
    } else if (c == 'k' || c == UP) && v.cursor > 0 {
        done(StageViewV { cursor: up_spec(v.cursor), ..v }, ActionV::Nothing)
    } else if c == 'l' || c == RIGHT {
        done(set_expand(v, true), ActionV::Nothing)
    } else if c == 'h' || c == LEFT {
        done(set_expand(v, false), ActionV::Nothing)
    } else if c == '\n' || c == '\r' {
        done(toggle_expand(v), ActionV::Nothing)
    } else if c == ' ' {
        toggle_stage(v)
    } else if c == 'a' {
        run(v, OpV::StageAll, PendingV::StagingAll)
    } else if c == 'd' {
        done(begin_discard(v), ActionV::Nothing)
    } else if c == 'c' {
        done(StageViewV { mode: Mode::CommitInput, commit_input: Seq::empty(), message: "输入 commit 消息(Enter 提交 / Esc 取消)"@, ..v }, ActionV::Nothing)
    } else {
        done(v, ActionV::Nothing)
    }
}

pub open spec fn commit_key(v: StageViewV, c: char) -> (StageViewV, CmdV) {
    if c == '\x1b' {
        done(StageViewV { mode: Mode::FileList, message: "已取消提交"@, ..v }, ActionV::Nothing)
    } else if c == '\n' || c == '\r' {
        if trim(v.commit_input).len() == 0 {
            done(StageViewV { message: "提交消息不能为空"@, ..v }, ActionV::Nothing)
        } else {
            run(v, OpV::Commit(v.commit_input), PendingV::Committing)
        }
    } else {
        done(StageViewV { commit_input: edit_spec(v.commit_input, c), ..v }, ActionV::Nothing)
    }
}

pub open spec fn discard_key(v: StageViewV, c: char) -> (StageViewV, CmdV) {
    if c == 'y' || c == 'Y' {
        match v.pending_discard {
            Some(ps) => run(StageViewV { pending_discard: None, ..v }, OpV::Discard(ps), PendingV::Discarding(ps.len() as usize)),
            None => done(StageViewV { mode: Mode::FileList, ..v }, ActionV::Nothing),
        }
    } else {
        done(StageViewV { pending_discard: None, mode: Mode::FileList, message: "已取消回滚"@, ..v }, ActionV::Nothing)
    }
}

/// Key `c`, by mode.
pub open spec fn key_spec(v: StageViewV, c: char) -> (StageViewV, CmdV) {
    match v.mode {
        Mode::FileList => list_key(v, c),
        Mode::CommitInput => commit_key(v, c),
        Mode::ConfirmDiscard => discard_key(v, c),
    }
}

/// The result `r` of the work the view waits for. A result that does not answer it
/// leaves the view as it is.
pub open spec fn reply_spec(v: StageViewV, r: ReplyV) -> (StageViewV, CmdV) {
    match (v.pending, r) {
        (PendingV::Staging(m), ReplyV::Changed(Ok(()))) => run(StageViewV { message: m, ..v }, OpV::Status, PendingV::ReloadStaged),
        (PendingV::StagingAll, ReplyV::Changed(Ok(()))) => run(v, OpV::Status, PendingV::ReloadAll),
        (PendingV::Discarding(n), ReplyV::Changed(Ok(()))) =>
            run(StageViewV { message: "已回滚 "@ + decimal(n as nat) + " 项(改动已 stash 兜底,可在 Stash 视图 pop 找回)"@, ..v }, OpV::Status, PendingV::ReloadDiscarded),
        (PendingV::Staging(_), ReplyV::Changed(Err(e))) => fail(v, e),
        (PendingV::StagingAll, ReplyV::Changed(Err(e))) => fail(v, e),
        (PendingV::Discarding(_), ReplyV::Changed(Err(e))) => fail(v, e),
        (PendingV::ReloadStaged, ReplyV::Files(Ok(fs))) => done(rebuild(StageViewV { files: fs, ..v }), ActionV::Nothing),
        (PendingV::ReloadAll, ReplyV::Files(Ok(fs))) => done(StageViewV { message: "已暂存全部"@, ..rebuild(StageViewV { files: fs, ..v }) }, ActionV::Nothing),
        (PendingV::ReloadDiscarded, ReplyV::Files(Ok(fs))) => done(StageViewV { mode: Mode::FileList, ..rebuild(StageViewV { files: fs, ..v }) }, ActionV::Nothing),
        (PendingV::ReloadStaged, ReplyV::Files(Err(e))) => fail(v, e),
        (PendingV::ReloadAll, ReplyV::Files(Err(e))) => fail(v, e),
        (PendingV::ReloadDiscarded, ReplyV::Files(Err(e))) => fail(v, e),
        (PendingV::Committing, ReplyV::Committed(Ok(sha))) => done(v, ActionV::Commit(sha)),
        (PendingV::Committing, ReplyV::Committed(Err(e))) => done(StageViewV { message: "提交失败: "@ + error_text(e), mode: Mode::FileList, ..v }, ActionV::Nothing),
        _ => done(v, ActionV::Nothing),
    }
}

// ───────────────────────── code ─────────────────────────

fn copy_paths(v: &Vec<String>) -> (r: Vec<String>)
    ensures
        strs(r@) == strs(v@),
{
    crate::repo::copy_strings(v)
}

fn without_exec(ps: &Vec<String>, p: &String) -> (r: Vec<String>)
    ensures
        strs(r@) == without(strs(ps@), p@),
{
    let ghost pv = strs(ps@);
    let mut r: Vec<String> = Vec::new();
    let mut i: usize = 0;
    while i < ps.len()
        invariant
            i <= ps.len(),
            pv == strs(ps@),
            strs(r@) == without(pv.take(i as int), p@),
        decreases ps.len() - i,
    {
        assert(pv.take(i + 1).drop_last() =~= pv.take(i as int));
        let same = chars_eq(&crate::text::chars_of(ps[i].as_str()), &crate::text::chars_of(p.as_str()));
        if !same {
            let ghost before = strs(r@);
            r.push(copy_string(&ps[i]));
            assert(strs(r@) =~= before.push(pv[i as int]));
        }
        i = i + 1;
    }
    assert(pv.take(ps.len() as int) =~= pv);
    r
}

fn contains_exec(ps: &Vec<String>, p: &String) -> (r: bool)
    ensures
        r == strs(ps@).contains(p@),
{
    let ghost pv = strs(ps@);
    let mut i: usize = 0;
    while i < ps.len()
        invariant
            i <= ps.len(),
            pv == strs(ps@),
            forall|j: int| 0 <= j < i ==> pv[j] != p@,
        decreases ps.len() - i,
    {
        if chars_eq(&crate::text::chars_of(ps[i].as_str()), &crate::text::chars_of(p.as_str())) {
            assert(pv[i as int] == p@);
            return true;
        }
        i = i + 1;
    }
    false
}

fn with_exec(ps: &Vec<String>, p: &String) -> (r: Vec<String>)
    ensures
        strs(r@) == with(strs(ps@), p@),
{
    let mut r = copy_paths(ps);
    if !contains_exec(ps, p) {
        let ghost before = strs(r@);
        r.push(copy_string(p));
        assert(strs(r@) =~= before.push(p@));
    }
    r
}

fn comps_prefix(pc: &Vec<Vec<char>>, dc: &Vec<Vec<char>>) -> (r: bool)
    ensures
        r == (dc@.len() <= pc@.len() && views(pc@).take(dc@.len() as int) == views(dc@)),
{
    if dc.len() > pc.len() {
        return false;
    }
    let mut i: usize = 0;
    while i < dc.len()
        invariant
            i <= dc.len(),
            dc.len() <= pc.len(),
            forall|j: int| 0 <= j < i ==> views(pc@)[j] == views(dc@)[j],
        decreases dc.len() - i,
    {
        if !chars_eq(&pc[i], &dc[i]) {
            assert(views(pc@).take(dc@.len() as int)[i as int] != views(dc@)[i as int]);
            return false;
        }
        i = i + 1;
    }
    assert(views(pc@).take(dc@.len() as int) =~= views(dc@));
    true
}

fn is_under_exec(p: &String, dc: &Vec<Vec<char>>, d: Ghost<Seq<char>>) -> (r: bool)
    requires
        views(dc@) == components(d@),
    ensures
        r == is_under(p@, d@),
{
    let pc = components_exec(p.as_str());
    comps_prefix(&pc, dc)
}

/// The files at or below `d`, and whether they are all staged.
fn under_exec(files: &Vec<FileStatus>, d: &String) -> (r: (Vec<String>, bool))
    ensures
        strs(r.0@) == under(files_view(files@), d@),
        r.1 == all_staged(files_view(files@), d@),
{
    let ghost fv = files_view(files@);
    let dc = components_exec(d.as_str());
    let mut ps: Vec<String> = Vec::new();
    let mut staged = true;
    let mut i: usize = 0;
    while i < files.len()
        invariant
            i <= files.len(),
            fv == files_view(files@),
            views(dc@) == components(d@),
            strs(ps@) == under_upto(fv, d@, i as int),
            staged == (forall|j: int| 0 <= j < i && is_under(#[trigger] fv[j].0, d@) ==> fv[j].1 == FileState::Staged),
        decreases files.len() - i,
    {
        assert(fv[i as int] == (files@[i as int].path@, files@[i as int].state));
        if is_under_exec(&files[i].path, &dc, Ghost(d@)) {
            let ghost before = strs(ps@);
            ps.push(copy_string(&files[i].path));
            assert(strs(ps@) =~= before.push(fv[i as int].0));
            if files[i].state != FileState::Staged {
                staged = false;
            }
        }
        i = i + 1;
    }
    (ps, staged)
}

impl StageView {
    /// The view of the changed `files`, nothing collapsed.
    pub fn load(files: Vec<FileStatus>) -> (r: StageView)
        ensures
            r.view() == rebuild(StageViewV {
                files: files_view(files@),
                collapsed: Seq::empty(),
                rows: Seq::empty(),
                cursor: 0,
                mode: Mode::FileList,
                commit_input: Seq::empty(),
                pending_discard: None,
                message: help_msg(),
                pending: PendingV::Idle,
            }),
    {
        let mut v = StageView {
            files,
            collapsed: Vec::new(),
            rows: Vec::new(),
            cursor: 0,
            mode: Mode::FileList,
            commit_input: Vec::new(),
            pending_discard: None,
            message: s("Space 暂存/取消 · a 全暂存 · d 回滚 · l/h 展开/折叠 · c 提交 · q/Esc 返回"),
            pending: Pending::Idle,
        };
        assert(strs(v.collapsed@) =~= Seq::<Seq<char>>::empty());
        v.rebuild_rows();
        v
    }

    fn rebuild_rows(&mut self)
        ensures
            final(self).view() == rebuild(old(self).view()),
    {
        self.rows = rows_of(&self.files, &self.collapsed);
        proof {
            assert(self.collapsed@.map_values(|x: String| x@) =~= strs(self.collapsed@));
        }
        if self.cursor >= self.rows.len() {
            self.cursor = if self.rows.len() == 0 { 0 } else { self.rows.len() - 1 };
        }
    }

    fn finish(&mut self, a: Action) -> (r: StageCmd)
        ensures
            (final(self).view(), r.view()) == done(old(self).view(), a.view()),
    {
        self.pending = Pending::Idle;
        StageCmd::Finish(Ok(a))
    }

    fn dir_at_cursor(&self) -> (r: Option<String>)
        ensures
            match r {
                Some(p) => dir_at_cursor(self.view()) == Some(p@),
                None => dir_at_cursor(self.view()) is None,
            },
    {
        if self.cursor < self.rows.len() && self.rows[self.cursor].is_dir {
            proof { assert(self.view().rows[self.cursor as int] == self.rows@[self.cursor as int].view()); }
            Some(copy_string(&self.rows[self.cursor].path))
        } else {
            proof {
                if self.cursor < self.rows.len() {
                    assert(self.view().rows[self.cursor as int] == self.rows@[self.cursor as int].view());
                }
            }
            None
        }
    }

    fn set_expand(&mut self, want: bool)
        ensures
            final(self).view() == set_expand(old(self).view(), want),
    {
        match self.dir_at_cursor() {
            Some(p) => {
                self.collapsed = if want { without_exec(&self.collapsed, &p) } else { with_exec(&self.collapsed, &p) };
                self.rebuild_rows();
            },
            None => {},
        }
    }

    fn toggle_expand(&mut self)
        ensures
            final(self).view() == toggle_expand(old(self).view()),
    {
        match self.dir_at_cursor() {
            Some(p) => {
                self.collapsed = if contains_exec(&self.collapsed, &p) { without_exec(&self.collapsed, &p) } else { with_exec(&self.collapsed, &p) };
                self.rebuild_rows();
            },
            None => {},
        }
    }

    fn toggle_stage(&mut self) -> (r: StageCmd)
        ensures
            (final(self).view(), r.view()) == toggle_stage(old(self).view()),
    {
        if self.cursor >= self.rows.len() {
            return self.finish(Action::Nothing);
        }
        let ghost rv = self.view().rows[self.cursor as int];
        assert(rv == self.rows@[self.cursor as int].view());
        let path = copy_string(&self.rows[self.cursor].path);
        if self.rows[self.cursor].is_dir {
            let (ps, staged) = under_exec(&self.files, &path);
            let n = ps.len() as u64;
            let tail = with_number("/ (", n, " 个文件)");
            assert(strs(ps@).len() == ps.len());
            assert("已取消暂存 "@ + path@ + tail@ =~= "已取消暂存 "@ + path@ + "/ ("@ + decimal(n as nat) + " 个文件)"@);
            assert("已暂存 "@ + path@ + tail@ =~= "已暂存 "@ + path@ + "/ ("@ + decimal(n as nat) + " 个文件)"@);
            if staged {
                self.pending = Pending::Staging(cat3("已取消暂存 ", path.as_str(), tail.as_str()));
                return StageCmd::Run(StageOp::Unstage(ps));
            }
            self.pending = Pending::Staging(cat3("已暂存 ", path.as_str(), tail.as_str()));
            return StageCmd::Run(StageOp::Stage(ps));
        }
        let one = vec![copy_string(&path)];
        assert(strs(one@) =~= seq![path@]);
        match self.rows[self.cursor].state {
            Some(FileState::Staged) | Some(FileState::StagedAndModified) => {
                self.pending = Pending::Staging(cat2("已取消暂存 ", path.as_str()));
                StageCmd::Run(StageOp::Unstage(one))
            },
            Some(_) => {
                self.pending = Pending::Staging(cat2("已暂存 ", path.as_str()));
                StageCmd::Run(StageOp::Stage(one))
            },
            None => self.finish(Action::Nothing),
        }
    }

    fn begin_discard(&mut self)
        ensures
            final(self).view() == begin_discard(old(self).view()),
    {
        if self.cursor >= self.rows.len() {
            return;
        }
        let ghost rv = self.view().rows[self.cursor as int];
        assert(rv == self.rows@[self.cursor as int].view());
        let path = copy_string(&self.rows[self.cursor].path);
        let (ps, label) = if self.rows[self.cursor].is_dir {
            let (ps, _) = under_exec(&self.files, &path);
            let tail = with_number("/ 下 ", ps.len() as u64, " 个文件");
            let label = cat3("目录 ", path.as_str(), tail.as_str());
            assert(strs(ps@).len() == ps.len());
            assert(label@ =~= "目录 "@ + path@ + "/ 下 "@ + decimal(ps.len() as nat) + " 个文件"@);
            (ps, label)
        } else {
            let one = vec![copy_string(&path)];
            assert(strs(one@) =~= seq![path@]);
            (one, cat2("文件 ", path.as_str()))
        };
        if ps.len() == 0 {
            return;
        }
        self.pending_discard = Some(ps);
        self.mode = Mode::ConfirmDiscard;
        self.message = cat3("确认回滚 ", label.as_str(), "?改动将 stash 兜底,可 pop 找回 [y/n]");
    }

    fn list_key(&mut self, c: char) -> (r: StageCmd)
        requires
            old(self).mode == Mode::FileList,
        ensures
            (final(self).view(), r.view()) == list_key(old(self).view(), c),
    {
        if c == 'q' || c == '\x1b' {
            return self.finish(Action::Back);
        }
        if (c == 'j' || c == DOWN) && can_go_down(self.cursor, self.rows.len()) {
            self.cursor = self.cursor + 1;
            return self.finish(Action::Nothing);
        }
        if (c == 'k' || c == UP) && self.cursor > 0 {
            self.cursor = self.cursor - 1;
            return self.finish(Action::Nothing);
        }
        if c == 'l' || c == RIGHT {
            self.set_expand(true);
            return self.finish(Action::Nothing);
        }
        if c == 'h' || c == LEFT {
            self.set_expand(false);
            return self.finish(Action::Nothing);
        }
        if c == '\n' || c == '\r' {
            self.toggle_expand();
            return self.finish(Action::Nothing);
        }
        if c == ' ' {
            return self.toggle_stage();
        }
        if c == 'a' {
            self.pending = Pending::StagingAll;
            return StageCmd::Run(StageOp::StageAll);
        }
        if c == 'd' {
            self.begin_discard();
            return self.finish(Action::Nothing);
        }
        if c == 'c' {
            self.mode = Mode::CommitInput;
            self.commit_input = Vec::new();
            self.message = s("输入 commit 消息(Enter 提交 / Esc 取消)");
            return self.finish(Action::Nothing);
        }
        self.finish(Action::Nothing)
    }

    fn commit_key(&mut self, c: char) -> (r: StageCmd)
        requires
            old(self).mode == Mode::CommitInput,
        ensures
            (final(self).view(), r.view()) == commit_key(old(self).view(), c),
    {
        if c == '\x1b' {
            self.mode = Mode::FileList;
            self.message = s("已取消提交");
            return self.finish(Action::Nothing);
        }
        if c == '\n' || c == '\r' {
            let t = crate::text::trim_vec(&self.commit_input);
            if t.len() == 0 {
                self.message = s("提交消息不能为空");
                return self.finish(Action::Nothing);
            }
            self.pending = Pending::Committing;
            return StageCmd::Run(StageOp::Commit(crate::text::string_of(&self.commit_input)));
        }
        edit_input(&mut self.commit_input, c);
        self.finish(Action::Nothing)
    }

    fn discard_key(&mut self, c: char) -> (r: StageCmd)
        requires
            old(self).mode == Mode::ConfirmDiscard,
        ensures
            (final(self).view(), r.view()) == discard_key(old(self).view(), c),
    {
        if c == 'y' || c == 'Y' {
            let mut taken: Option<Vec<String>> = None;
            std::mem::swap(&mut taken, &mut self.pending_discard);
            match taken {
                Some(ps) => {
                    self.pending = Pending::Discarding(ps.len());
                    proof { assert(strs(ps@).len() == ps.len()); }
                    return StageCmd::Run(StageOp::Discard(ps));
                },
                None => {
                    self.mode = Mode::FileList;
                    return self.finish(Action::Nothing);
                },
            }
        }
        self.pending_discard = None;
        self.mode = Mode::FileList;
        self.message = s("已取消回滚");
        self.finish(Action::Nothing)
    }

    /// Key `c`: the view's next state, and the git work it needs or how the key ends.
    pub fn handle_key(&mut self, c: char) -> (r: StageCmd)
        ensures
            (final(self).view(), r.view()) == key_spec(old(self).view(), c),
    {
        match self.mode {
            Mode::FileList => self.list_key(c),
            Mode::CommitInput => self.commit_key(c),
            Mode::ConfirmDiscard => self.discard_key(c),
        }
    }

    /// The result of the git work the view asked for.
    pub fn on_reply(&mut self, r: StageReply) -> (cmd: StageCmd)
        ensures
            (final(self).view(), cmd.view()) == reply_spec(old(self).view(), r.view()),
    {
        let mut pending = Pending::Idle;
        std::mem::swap(&mut pending, &mut self.pending);
        match (pending, r) {
            (Pending::Staging(m), StageReply::Changed(Ok(()))) => {
                self.message = m;
                self.pending = Pending::ReloadStaged;
                StageCmd::Run(StageOp::Status)
            },
            (Pending::StagingAll, StageReply::Changed(Ok(()))) => {
                self.pending = Pending::ReloadAll;
                StageCmd::Run(StageOp::Status)
            },
            (Pending::Discarding(n), StageReply::Changed(Ok(()))) => {
                self.message = with_number("已回滚 ", n as u64, " 项(改动已 stash 兜底,可在 Stash 视图 pop 找回)");
                self.pending = Pending::ReloadDiscarded;
                StageCmd::Run(StageOp::Status)
            },
            (Pending::Staging(_), StageReply::Changed(Err(e))) => StageCmd::Finish(Err(e)),
            (Pending::StagingAll, StageReply::Changed(Err(e))) => StageCmd::Finish(Err(e)),
            (Pending::Discarding(_), StageReply::Changed(Err(e))) => StageCmd::Finish(Err(e)),
            (Pending::ReloadStaged, StageReply::Files(Ok(fs))) => {
                self.files = fs;
                self.rebuild_rows();
                StageCmd::Finish(Ok(Action::Nothing))
            },
            (Pending::ReloadAll, StageReply::Files(Ok(fs))) => {
                self.files = fs;
                self.rebuild_rows();
                self.message = s("已暂存全部");
                StageCmd::Finish(Ok(Action::Nothing))
            },
            (Pending::ReloadDiscarded, StageReply::Files(Ok(fs))) => {
                self.files = fs;
                self.rebuild_rows();
                self.mode = Mode::FileList;
                StageCmd::Finish(Ok(Action::Nothing))
            },
            (Pending::ReloadStaged, StageReply::Files(Err(e))) => StageCmd::Finish(Err(e)),
            (Pending::ReloadAll, StageReply::Files(Err(e))) => StageCmd::Finish(Err(e)),
            (Pending::ReloadDiscarded, StageReply::Files(Err(e))) => StageCmd::Finish(Err(e)),
            (Pending::Committing, StageReply::Committed(Ok(sha))) => StageCmd::Finish(Ok(Action::Commit(sha))),
            (Pending::Committing, StageReply::Committed(Err(e))) => {
                self.message = with_error("提交失败: ", &e);
                self.mode = Mode::FileList;
                StageCmd::Finish(Ok(Action::Nothing))
            },
            _ => StageCmd::Finish(Ok(Action::Nothing)),
        }
    }
}


// ───────────────────────── laws ─────────────────────────

/// Discarding always needs a confirmation: a key asks for a discard only when the view
/// waits for the confirmation and the key is `y`, and it discards exactly the paths that
/// were shown for confirming.
pub proof fn law_discard_needs_confirmation(v: StageViewV, c: char)
    ensures
        key_spec(v, c).1 matches CmdV::Run(OpV::Discard(ps))
            ==> v.mode == Mode::ConfirmDiscard && (c == 'y' || c == 'Y') && v.pending_discard == Some(ps),
{
}

/// Asking to discard never discards by itself: `d` on the file list asks for no git
/// work.
pub proof fn law_d_only_asks(v: StageViewV)
    requires
        v.mode == Mode::FileList,
    ensures
        key_spec(v, 'd').1 == CmdV::Finish(Ok(ActionV::Nothing)),
        key_spec(v, 'd').0.files == v.files,
{
}

} // verus!
