//! The terminal front end's main screen and its decisions: which repository is shown,
//! which screen is open, the background update or push and what follows it (a push refused
//! because the remote is ahead integrates first and pushes again once that ends cleanly).
//! The front end carries out the commands, runs the views, and reports back.
use vstd::prelude::*;
use crate::status::RepoStatus;
use crate::submodule::{StatusV, SubmoduleStatus, SubmoduleV};
use crate::error::{Error, ErrorV, error_text};
use crate::stash::{StashRef, opt_label};
use crate::update::{UpdateOutcome, UpdV, IntegrationStrategy, PendingConflicts};
use crate::push::PushOutcome;
use crate::git::Progress;
use crate::text::{decimal, lines, trim};
use crate::repo::{copy_string, s, strs};
use crate::present::describe_spec;
use crate::ui::{DOWN, UP};

verus! {

/// A repository of the list.
pub struct RepoEntry {
    pub name: String,
    pub path: String,
    /// It could be opened.
    pub opened: bool,
    /// Its last status, once read.
    pub status: Option<RepoStatus>,
}

/// A sub-view.
#[derive(Debug, Clone, Copy, PartialEq, Eq, Structural)]
pub enum ViewKind {
    Branch,
    Stash,
    Stage,
    Log,
}

/// The screen shown.
pub enum Screen {
    Status,
    View(ViewKind),
    /// A diff text and its scroll offset.
    Diff(String, u16),
    Submodule,
    Conflict,
}

/// The background operation running.
#[derive(Debug, Clone, Copy, PartialEq, Eq, Structural)]
pub enum Running {
    Update,
    Push,
}

/// What the front end has to do next.
pub enum SessionCmd {
    /// Nothing; draw again.
    Idle,
    Quit,
    /// Read the current repository's status.
    ReadStatus,
    /// Load a sub-view.
    Open(ViewKind),
    /// Show the submodule list of the current status.
    OpenSubmodules,
    /// Read the working tree's diff text.
    ShowDiff,
    /// Start a background update with this strategy.
    StartUpdate(IntegrationStrategy),
    /// Start a background push.
    StartPush,
    /// Cancel the background operation.
    Cancel,
    /// Look for an unfinished integration.
    Resume,
    /// Open the conflict view on these files.
    EnterConflict(Vec<String>, Option<StashRef>),
    ContinueUpdate(Option<StashRef>),
    AbortUpdate(Option<StashRef>),
}

/// The result of a command.
pub enum SessionReply {
    Status(Result<RepoStatus, Error>),
    /// A view (or the conflict view) was loaded, or not.
    Opened(Result<(), Error>),
    DiffText(Result<String, Error>),
    Resumed(Result<Option<PendingConflicts>, Error>),
    Integrated(Result<UpdateOutcome, Error>),
    Aborted(Result<(), Error>),
}

/// How a sub-view ended.
pub enum ViewEnd {
    Back,
    /// Its list changed (branches or stashes); it stays open.
    Changed,
    Committed(String),
    Failed(Error),
    Quit,
    Continue(Option<StashRef>),
    Abort(Option<StashRef>),
    SwitchTo(String),
}

/// The command the session waits on.
pub enum Pending {
    Idle,
    /// Reading the status; then this message, then a push if asked.
    Reloading(Option<String>, bool),
    Opening(ViewKind),
    Diffing,
    Resuming,
    OpeningConflict,
    Continuing,
    Aborting,
}

pub struct Session {
    pub repos: Vec<RepoEntry>,
    pub current_index: usize,
    pub screen: Screen,
    pub message: String,
    pub running: Option<Running>,
    /// A push was refused as the remote is ahead: push again once the integration ends
    /// cleanly.
    pub push_after_integrate: bool,
    pub strategy: IntegrationStrategy,
    pub progress: Option<Progress>,
    pub status_scroll: u16,
    pub pending: Pending,
}

// ───────────────────────── model ─────────────────────────

pub struct EntryV {
    pub name: Seq<char>,
    pub path: Seq<char>,
    pub opened: bool,
    pub status: Option<StatusV>,
}

pub enum ScreenV {
    Status,
    View(ViewKind),
    Diff(Seq<char>, u16),
    Submodule,
    Conflict,
}

pub enum CmdV {
    Idle,
    Quit,
    ReadStatus,
    Open(ViewKind),
    OpenSubmodules,
    ShowDiff,
    StartUpdate(IntegrationStrategy),
    StartPush,
    Cancel,
    Resume,
    EnterConflict(Seq<Seq<char>>, Option<Seq<char>>),
    ContinueUpdate(Option<Seq<char>>),
    AbortUpdate(Option<Seq<char>>),
}

pub enum ReplyV {
    Status(Result<StatusV, ErrorV>),
    Opened(Result<(), ErrorV>),
    DiffText(Result<Seq<char>, ErrorV>),
    Resumed(Result<Option<(Seq<Seq<char>>, Option<Seq<char>>)>, ErrorV>),
    Integrated(Result<UpdV, ErrorV>),
    Aborted(Result<(), ErrorV>),
}

pub enum ViewEndV {
    Back,
    Changed,
    Committed(Seq<char>),
    Failed(ErrorV),
    Quit,
    Continue(Option<Seq<char>>),
    Abort(Option<Seq<char>>),
    SwitchTo(Seq<char>),
}

pub enum PendingV {
    Idle,
    Reloading(Option<Seq<char>>, bool),
    Opening(ViewKind),
    Diffing,
    Resuming,
    OpeningConflict,
    Continuing,
    Aborting,
}

pub struct SessionV {
    pub repos: Seq<EntryV>,
    pub current_index: usize,
    pub screen: ScreenV,
    pub message: Seq<char>,
    pub running: Option<Running>,
    pub push_after_integrate: bool,
    pub strategy: IntegrationStrategy,
    pub progress: Option<(Seq<char>, Option<u8>, Seq<char>)>,
    pub status_scroll: u16,
    pub pending: PendingV,
}

pub open spec fn opt_status(o: Option<RepoStatus>) -> Option<StatusV> {
    match o {
        Some(st) => Some(st.view()),
        None => None,
    }
}

pub open spec fn opt_msg(o: Option<String>) -> Option<Seq<char>> {
    match o {
        Some(m) => Some(m@),
        None => None,
    }
}

impl RepoEntry {
    pub open spec fn view(&self) -> EntryV {
        EntryV { name: self.name@, path: self.path@, opened: self.opened, status: opt_status(self.status) }
    }
}

pub open spec fn entries_view(v: Seq<RepoEntry>) -> Seq<EntryV> {
    v.map_values(|e: RepoEntry| e.view())
}

impl Screen {
    pub open spec fn view(&self) -> ScreenV {
        match self {
            Screen::Status => ScreenV::Status,
            Screen::View(k) => ScreenV::View(*k),
            Screen::Diff(t, n) => ScreenV::Diff(t@, *n),
            Screen::Submodule => ScreenV::Submodule,
            Screen::Conflict => ScreenV::Conflict,
        }
    }
}

impl SessionCmd {
    pub open spec fn view(&self) -> CmdV {
        match self {
            SessionCmd::Idle => CmdV::Idle,
            SessionCmd::Quit => CmdV::Quit,
            SessionCmd::ReadStatus => CmdV::ReadStatus,
            SessionCmd::Open(k) => CmdV::Open(*k),
            SessionCmd::OpenSubmodules => CmdV::OpenSubmodules,
            SessionCmd::ShowDiff => CmdV::ShowDiff,
            SessionCmd::StartUpdate(s) => CmdV::StartUpdate(*s),
            SessionCmd::StartPush => CmdV::StartPush,
            SessionCmd::Cancel => CmdV::Cancel,
            SessionCmd::Resume => CmdV::Resume,
            SessionCmd::EnterConflict(f, a) => CmdV::EnterConflict(strs(f@), opt_label(*a)),
            SessionCmd::ContinueUpdate(a) => CmdV::ContinueUpdate(opt_label(*a)),
            SessionCmd::AbortUpdate(a) => CmdV::AbortUpdate(opt_label(*a)),
        }
    }
}

impl SessionReply {
    pub open spec fn view(&self) -> ReplyV {
        match self {
            SessionReply::Status(Ok(st)) => ReplyV::Status(Ok(st.view())),
            SessionReply::Status(Err(e)) => ReplyV::Status(Err(e.view())),
            SessionReply::Opened(Ok(())) => ReplyV::Opened(Ok(())),
            SessionReply::Opened(Err(e)) => ReplyV::Opened(Err(e.view())),
            SessionReply::DiffText(Ok(t)) => ReplyV::DiffText(Ok(t@)),
            SessionReply::DiffText(Err(e)) => ReplyV::DiffText(Err(e.view())),
            SessionReply::Resumed(Ok(Some(p))) => ReplyV::Resumed(Ok(Some((strs(p.files@), opt_label(p.autostash))))),
            SessionReply::Resumed(Ok(None)) => ReplyV::Resumed(Ok(None)),
            SessionReply::Resumed(Err(e)) => ReplyV::Resumed(Err(e.view())),
            SessionReply::Integrated(Ok(o)) => ReplyV::Integrated(Ok(o.view())),
            SessionReply::Integrated(Err(e)) => ReplyV::Integrated(Err(e.view())),
            SessionReply::Aborted(Ok(())) => ReplyV::Aborted(Ok(())),
            SessionReply::Aborted(Err(e)) => ReplyV::Aborted(Err(e.view())),
        }
    }
}

impl ViewEnd {
    pub open spec fn view(&self) -> ViewEndV {
        match self {
            ViewEnd::Back => ViewEndV::Back,
            ViewEnd::Changed => ViewEndV::Changed,
            ViewEnd::Committed(s) => ViewEndV::Committed(s@),
            ViewEnd::Failed(e) => ViewEndV::Failed(e.view()),
            ViewEnd::Quit => ViewEndV::Quit,
            ViewEnd::Continue(a) => ViewEndV::Continue(opt_label(*a)),
            ViewEnd::Abort(a) => ViewEndV::Abort(opt_label(*a)),
            ViewEnd::SwitchTo(p) => ViewEndV::SwitchTo(p@),
        }
    }
}

impl Pending {
    pub open spec fn view(&self) -> PendingV {
        match self {
            Pending::Idle => PendingV::Idle,
            Pending::Reloading(m, p) => PendingV::Reloading(opt_msg(*m), *p),
            Pending::Opening(k) => PendingV::Opening(*k),
            Pending::Diffing => PendingV::Diffing,
            Pending::Resuming => PendingV::Resuming,
            Pending::OpeningConflict => PendingV::OpeningConflict,
            Pending::Continuing => PendingV::Continuing,
            Pending::Aborting => PendingV::Aborting,
        }
    }
}

pub open spec fn progress_opt(o: Option<Progress>) -> Option<(Seq<char>, Option<u8>, Seq<char>)> {
    match o {
        Some(p) => Some((p.phase@, p.percent, p.raw@)),
        None => None,
    }
}

impl Session {
    pub open spec fn view(&self) -> SessionV {
        SessionV {
            repos: entries_view(self.repos@),
            current_index: self.current_index,
            screen: self.screen.view(),
            message: self.message@,
            running: self.running,
            push_after_integrate: self.push_after_integrate,
            strategy: self.strategy,
            progress: progress_opt(self.progress),
            status_scroll: self.status_scroll,
            pending: self.pending.view(),
        }
    }
}

// ───────────────────────── the status text ─────────────────────────

pub open spec fn or_text(o: Option<Seq<char>>, d: Seq<char>) -> Seq<char> {
    match o {
        Some(t) => t,
        None => d,
    }
}

pub open spec fn sub_icon(s: SubmoduleStatus) -> Seq<char> {
    match s {
        SubmoduleStatus::Clean => "✓"@,
        SubmoduleStatus::Dirty => "●"@,
        SubmoduleStatus::Detached => "⚠"@,
        SubmoduleStatus::Uninitialized => "?"@,
    }
}

pub open spec fn sub_lines(subs: Seq<SubmoduleV>, n: int) -> Seq<char>
    decreases n,
{
    if n <= 0 { Seq::empty() } else { sub_lines(subs, n - 1) + "\n  "@ + sub_icon(subs[n - 1].status) + " "@ + subs[n - 1].name }
}

/// The status panel's text.
pub open spec fn status_text_spec(st: StatusV) -> Seq<char> {
    "分支:      "@ + or_text(st.branch, "(detached)"@) + "\nupstream:  "@ + or_text(st.upstream, "(none)"@)
        + "\n领先/落后: +"@ + decimal(st.ahead as nat) + " / -"@ + decimal(st.behind as nat)
        + "\n工作区:    "@ + (if st.dirty { "有未提交改动"@ } else { "干净"@ })
        + (if st.conflicted.len() > 0 { "\n冲突文件:  "@ + decimal(st.conflicted.len()) + " 个(按 R 恢复解决)"@ } else { Seq::empty() })
        + (if st.submodules.len() > 0 {
            "\n\n子仓库:    "@ + decimal(st.submodules.len()) + " 个"@ + sub_lines(st.submodules, st.submodules.len() as int)
        } else {
            Seq::empty()
        })
}

// ───────────────────────── transitions ─────────────────────────

/// The current repository's entry, if it could be opened.
pub open spec fn current_opened(v: SessionV) -> bool {
    v.current_index < v.repos.len() && v.repos[v.current_index as int].opened
}

pub open spec fn idle(v: SessionV) -> (SessionV, CmdV) {
    (SessionV { pending: PendingV::Idle, ..v }, CmdV::Idle)
}

/// Starting a background push (when the current repository is open).
pub open spec fn spawn_push(v: SessionV) -> (SessionV, CmdV) {
    if current_opened(v) {
        (SessionV { running: Some(Running::Push), progress: None, message: "推送中…(Esc 取消)"@, pending: PendingV::Idle, ..v }, CmdV::StartPush)
    } else {
        idle(v)
    }
}

/// Starting a background update; `push_after` when a refused push asked for it.
pub open spec fn spawn_update(v: SessionV, push_after: bool) -> (SessionV, CmdV) {
    if current_opened(v) {
        (SessionV {
            running: Some(Running::Update),
            push_after_integrate: push_after,
            progress: None,
            message: if push_after { "远端领先,正在自动整合…(Esc 取消)"@ } else { "更新中…(Esc 取消)"@ },
            pending: PendingV::Idle,
            ..v
        }, CmdV::StartUpdate(v.strategy))
    } else {
        idle(v)
    }
}

/// The end of a reload: the message `after`, if any, then a push if asked.
pub open spec fn finish_reload(v: SessionV, after: Option<Seq<char>>, then_push: bool) -> (SessionV, CmdV) {
    let v1 = match after {
        Some(m) => SessionV { message: m, ..v },
        None => v,
    };
    if then_push { spawn_push(v1) } else { idle(v1) }
}

/// Back to the status screen (unless `keep`), scrolled to the top, reading the current
/// repository's status again.
pub open spec fn reload(v: SessionV, after: Option<Seq<char>>, then_push: bool, keep: bool) -> (SessionV, CmdV) {
    let v1 = SessionV { screen: if keep { v.screen } else { ScreenV::Status }, status_scroll: 0, ..v };
    if current_opened(v1) {
        (SessionV { pending: PendingV::Reloading(after, then_push), ..v1 }, CmdV::ReadStatus)
    } else {
        finish_reload(v1, after, then_push)
    }
}

/// Whether an integration's outcome leaves a clean tree behind (no conflict left, the
/// stash back in place).
pub open spec fn clean_outcome(o: UpdV) -> bool {
    !(o is Conflicted) && !(o is StashRestoreConflict)
}

/// What follows an update or a completed integration.
pub open spec fn after_integration(v: SessionV, o: UpdV) -> (SessionV, CmdV) {
    match o {
        UpdV::Conflicted(files, autostash) => (SessionV { pending: PendingV::OpeningConflict, ..v }, CmdV::EnterConflict(files, autostash)),
        UpdV::StashRestoreConflict(_) => reload(SessionV {
            push_after_integrate: false,
            message: "整合成功,但 autostash 贴回有冲突,请手动处理"@,
            ..v
        }, None, false, false),
        _ => reload(SessionV { message: describe_spec(o), ..v }, None, v.push_after_integrate, false),
    }
}

/// What follows a push.
pub open spec fn after_push(v: SessionV, r: Result<PushOutcome, ErrorV>) -> (SessionV, CmdV) {
    match r {
        Ok(PushOutcome::Success) => reload(SessionV {
            message: if v.push_after_integrate { "整合后推送成功"@ } else { "推送成功"@ },
            push_after_integrate: false,
            ..v
        }, None, false, false),
        Ok(PushOutcome::NoUpstream) => idle(SessionV {
            push_after_integrate: false,
            message: "无 upstream,请先执行 git push -u origin <branch>"@,
            ..v
        }),
        Ok(PushOutcome::NonFastForward) => spawn_update(v, true),
        Err(ErrorV::Cancelled) => reload(SessionV { push_after_integrate: false, message: "推送已取消"@, ..v }, None, false, false),
        Err(e) => idle(SessionV { push_after_integrate: false, message: "推送失败: "@ + error_text(e), ..v }),
    }
}

/// The background update ended.
pub open spec fn update_done_spec(v: SessionV, r: Result<UpdV, ErrorV>) -> (SessionV, CmdV) {
    let v1 = SessionV { running: None, progress: None, ..v };
    match r {
        Ok(o) => after_integration(v1, o),
        Err(ErrorV::Cancelled) => reload(SessionV { push_after_integrate: false, message: "更新已取消"@, ..v1 }, None, false, false),
        Err(e) => idle(SessionV { push_after_integrate: false, message: "更新失败: "@ + error_text(e), ..v1 }),
    }
}

/// The background push ended.
pub open spec fn push_done_spec(v: SessionV, r: Result<PushOutcome, ErrorV>) -> (SessionV, CmdV) {
    after_push(SessionV { running: None, progress: None, ..v }, r)
}

pub open spec fn open_fail_msg(k: ViewKind) -> Seq<char> {
    match k {
        ViewKind::Branch => "加载分支失败: "@,
        ViewKind::Stash => "加载 Stash 失败: "@,
        ViewKind::Stage => "进入 Stage 失败: "@,
        ViewKind::Log => "加载 Log 失败: "@,
    }
}

/// The number of lines of the current repository's status text.
pub open spec fn status_lines(v: SessionV) -> nat {
    if v.current_index < v.repos.len() {
        match v.repos[v.current_index as int].status {
            Some(st) => lines(status_text_spec(st)).len(),
            None => 0,
        }
    } else {
        0
    }
}

/// The scroll offset one line down, kept within `lines` lines.
pub open spec fn scroll_down(scroll: u16, nlines: nat) -> u16 {
    let max = (if nlines == 0 { 0 } else { nlines - 1 }) as u16;
    if scroll + 1 < max { (scroll + 1) as u16 } else { max }
}

pub open spec fn scroll_up(scroll: u16) -> u16 {
    if scroll > 0 { (scroll - 1) as u16 } else { 0 }
}

pub open spec fn status_key(v: SessionV, c: char) -> (SessionV, CmdV) {
    if c == 'q' {
        (SessionV { pending: PendingV::Idle, ..v }, CmdV::Quit)
    } else if c == 'j' || c == DOWN {
        idle(SessionV { status_scroll: scroll_down(v.status_scroll, status_lines(v)), ..v })
    } else if c == 'k' || c == UP {
        idle(SessionV { status_scroll: scroll_up(v.status_scroll), ..v })
    } else if c == 'r' {
        reload(v, Some("已刷新"@), false, false)
    } else if c == 'b' || c == 'h' || c == 's' || c == 'l' {
        let k = if c == 'b' { ViewKind::Branch } else if c == 'h' { ViewKind::Stash } else if c == 's' { ViewKind::Stage } else { ViewKind::Log };
        if current_opened(v) { (SessionV { pending: PendingV::Opening(k), ..v }, CmdV::Open(k)) } else { idle(v) }
    } else if c == 'S' {
        if v.current_index < v.repos.len() && v.repos[v.current_index as int].status is Some {
            if v.repos[v.current_index as int].status->Some_0.submodules.len() == 0 {
                idle(SessionV { message: "无子仓库"@, ..v })
            } else {
                (SessionV { screen: ScreenV::Submodule, pending: PendingV::Idle, ..v }, CmdV::OpenSubmodules)
            }
        } else {
            idle(v)
        }
    } else if c == 'd' {
        if current_opened(v) { (SessionV { pending: PendingV::Diffing, ..v }, CmdV::ShowDiff) } else { idle(v) }
    } else if c == 'p' {
        spawn_push(v)
    } else if c == 'u' {
        spawn_update(v, false)
    } else if c == 'm' {
        let st = if v.strategy == IntegrationStrategy::Merge { IntegrationStrategy::Rebase } else { IntegrationStrategy::Merge };
        idle(SessionV { strategy: st, message: "整合策略已切换为 "@ + (if st == IntegrationStrategy::Merge { "merge"@ } else { "rebase"@ }), ..v })
    } else if c == 'R' {
        if current_opened(v) { (SessionV { pending: PendingV::Resuming, ..v }, CmdV::Resume) } else { idle(v) }
    } else {
        idle(v)
    }
}

pub open spec fn diff_key(v: SessionV, text: Seq<char>, scroll: u16, c: char) -> (SessionV, CmdV) {
    if c == 'q' || c == '\x1b' {
        reload(v, None, false, false)
    } else if c == 'j' || c == DOWN {
        idle(SessionV { screen: ScreenV::Diff(text, scroll_down(scroll, lines(text).len())), ..v })
    } else if c == 'k' || c == UP {
        idle(SessionV { screen: ScreenV::Diff(text, scroll_up(scroll)), ..v })
    } else {
        idle(v)
    }
}

/// Key `c` on the status or diff screen; while a background operation runs only Esc
/// (which cancels it) counts.
pub open spec fn key_spec(v: SessionV, c: char) -> (SessionV, CmdV) {
    if v.running is Some {
        if c == '\x1b' { (SessionV { message: "正在取消…"@, pending: PendingV::Idle, ..v }, CmdV::Cancel) } else { idle(v) }
    } else {
        match v.screen {
            ScreenV::Status => status_key(v, c),
            ScreenV::Diff(t, n) => diff_key(v, t, n, c),
            _ => idle(v),
        }
    }
}

/// Tab: the next repository of the list.
pub open spec fn tab_spec(v: SessionV) -> (SessionV, CmdV) {
    if v.running is Some || v.repos.len() == 0 {
        idle(v)
    } else {
        let i = ((v.current_index + 1) % (v.repos.len() as int)) as usize;
        reload(SessionV { current_index: i, ..v }, Some("切换到: "@ + v.repos[i as int].name), false, false)
    }
}

/// A sub-view ended.
pub open spec fn view_end_spec(v: SessionV, e: ViewEndV) -> (SessionV, CmdV) {
    match e {
        ViewEndV::Back => reload(v, None, false, false),
        ViewEndV::Changed => reload(v, None, false, true),
        ViewEndV::Committed(sha) => reload(SessionV { message: "已提交 "@ + sha, ..v }, None, false, false),
        ViewEndV::Failed(err) => idle(SessionV { message: "操作失败: "@ + error_text(err), ..v }),
        ViewEndV::Quit => (SessionV { pending: PendingV::Idle, ..v }, CmdV::Quit),
        ViewEndV::Continue(a) => (SessionV { pending: PendingV::Continuing, ..v }, CmdV::ContinueUpdate(a)),
        ViewEndV::Abort(a) => (SessionV { push_after_integrate: false, pending: PendingV::Aborting, ..v }, CmdV::AbortUpdate(a)),
        ViewEndV::SwitchTo(p) => reload(SessionV { message: "切换子仓库功能开发中: "@ + p, ..v }, None, false, false),
    }
}

/// The result of the command the session waits on; one that does not answer it is
/// ignored.
pub open spec fn reply_spec(v: SessionV, r: ReplyV) -> (SessionV, CmdV) {
    match (v.pending, r) {
        (PendingV::Reloading(after, then_push), ReplyV::Status(Ok(st))) => {
            let repos = if v.current_index < v.repos.len() {
                v.repos.update(v.current_index as int, EntryV { status: Some(st), ..v.repos[v.current_index as int] })
            } else {
                v.repos
            };
            finish_reload(SessionV { repos, ..v }, after, then_push)
        },
        (PendingV::Reloading(after, then_push), ReplyV::Status(Err(err))) =>
            finish_reload(SessionV { message: "读取状态失败: "@ + error_text(err), ..v }, after, then_push),
        (PendingV::Opening(k), ReplyV::Opened(Ok(()))) => idle(SessionV { screen: ScreenV::View(k), ..v }),
        (PendingV::Opening(k), ReplyV::Opened(Err(err))) => idle(SessionV { message: open_fail_msg(k) + error_text(err), ..v }),
        (PendingV::OpeningConflict, ReplyV::Opened(Ok(()))) => idle(SessionV { screen: ScreenV::Conflict, ..v }),
        (PendingV::OpeningConflict, ReplyV::Opened(Err(err))) => idle(SessionV { message: "加载冲突失败: "@ + error_text(err), ..v }),
        (PendingV::Diffing, ReplyV::DiffText(Ok(t))) =>
            if trim(t).len() == 0 { idle(SessionV { message: "工作区无改动"@, ..v }) } else { idle(SessionV { screen: ScreenV::Diff(t, 0), ..v }) },
        (PendingV::Diffing, ReplyV::DiffText(Err(err))) => idle(SessionV { message: "查看 diff 失败: "@ + error_text(err), ..v }),
        (PendingV::Resuming, ReplyV::Resumed(Ok(Some((files, a))))) => (SessionV { pending: PendingV::OpeningConflict, ..v }, CmdV::EnterConflict(files, a)),
        (PendingV::Resuming, ReplyV::Resumed(Ok(None))) => idle(SessionV { message: "没有未完成的整合"@, ..v }),
        (PendingV::Resuming, ReplyV::Resumed(Err(err))) => idle(SessionV { message: "恢复失败: "@ + error_text(err), ..v }),
        (PendingV::Continuing, ReplyV::Integrated(Ok(o))) => after_integration(v, o),
        (PendingV::Continuing, ReplyV::Integrated(Err(err))) =>
            reload(SessionV { push_after_integrate: false, message: "完成失败: "@ + error_text(err), ..v }, None, false, false),
        (PendingV::Aborting, ReplyV::Aborted(Ok(()))) => reload(SessionV { message: "已放弃整合"@, ..v }, None, false, false),
        (PendingV::Aborting, ReplyV::Aborted(Err(err))) => reload(SessionV { message: "放弃失败: "@ + error_text(err), ..v }, None, false, false),
        _ => idle(v),
    }
}

// ───────────────────────── laws ─────────────────────────

/// Whether a result starts a push, now or once the status has been read.
pub open spec fn starts_push(r: (SessionV, CmdV)) -> bool {
    r.1 == CmdV::StartPush || r.0.pending == PendingV::Reloading(None, true)
}

/// A push refused because the remote is ahead is tried again only after the integration
/// it started ended cleanly: an update that ends in conflicts, with its stash not put
/// back, or in an error never pushes; one that ends cleanly pushes exactly when the push
/// had been refused (and the repository is open).
pub proof fn law_push_again_only_after_clean_integration(v: SessionV, r: Result<UpdV, ErrorV>)
    ensures
        starts_push(update_done_spec(v, r)) ==> v.push_after_integrate && (r matches Ok(o) && clean_outcome(o)),
        (v.push_after_integrate && current_opened(v) && (r matches Ok(o) && clean_outcome(o))) ==> starts_push(update_done_spec(v, r)),
{
}

/// A refused push starts the integration that precedes the second push.
pub proof fn law_refused_push_integrates(v: SessionV)
    requires
        current_opened(v),
    ensures
        push_done_spec(v, Ok(PushOutcome::NonFastForward)).1 == CmdV::StartUpdate(v.strategy),
        push_done_spec(v, Ok(PushOutcome::NonFastForward)).0.push_after_integrate,
{
}

/// While a background operation runs, no key starts anything but its cancellation.
pub proof fn law_running_only_cancels(v: SessionV, c: char)
    requires
        v.running is Some,
    ensures
        key_spec(v, c).1 == CmdV::Cancel || key_spec(v, c).1 == CmdV::Idle,
        key_spec(v, c).0.running == v.running,
{
}

// ───────────────────────── code ─────────────────────────

fn sub_icon_str(st: SubmoduleStatus) -> (r: &'static str)
    ensures
        r@ == sub_icon(st),
{
    match st {
        SubmoduleStatus::Clean => "✓",
        SubmoduleStatus::Dirty => "●",
        SubmoduleStatus::Detached => "⚠",
        SubmoduleStatus::Uninitialized => "?",
    }
}

/// The status panel's text for `st`.
pub fn status_text(st: &RepoStatus) -> (r: String)
    ensures
        r@ == status_text_spec(st.view()),
{
    let ghost sv = st.view();
    let mut t = crate::text::chars_of("分支:      ");
    match &st.branch {
        Some(b) => crate::text::push_str(&mut t, b.as_str()),
        None => crate::text::push_str(&mut t, "(detached)"),
    }
    crate::text::push_str(&mut t, "\nupstream:  ");
    match &st.upstream {
        Some(u) => crate::text::push_str(&mut t, u.as_str()),
        None => crate::text::push_str(&mut t, "(none)"),
    }
    crate::text::push_str(&mut t, "\n领先/落后: +");
    crate::text::push_decimal(&mut t, st.ahead as u64);
    crate::text::push_str(&mut t, " / -");
    crate::text::push_decimal(&mut t, st.behind as u64);
    crate::text::push_str(&mut t, "\n工作区:    ");
    crate::text::push_str(&mut t, if st.dirty { "有未提交改动" } else { "干净" });
    let ghost base = t@;
    if st.conflicted.len() > 0 {
        crate::text::push_str(&mut t, "\n冲突文件:  ");
        crate::text::push_decimal(&mut t, st.conflicted.len() as u64);
        crate::text::push_str(&mut t, " 个(按 R 恢复解决)");
    }
    let ghost mid = t@;
    assert(mid == base + (if sv.conflicted.len() > 0 { "\n冲突文件:  "@ + decimal(sv.conflicted.len()) + " 个(按 R 恢复解决)"@ } else { Seq::empty() }));
    if st.submodules.len() > 0 {
        crate::text::push_str(&mut t, "\n\n子仓库:    ");
        crate::text::push_decimal(&mut t, st.submodules.len() as u64);
        crate::text::push_str(&mut t, " 个");
        let ghost head = t@;
        let mut i: usize = 0;
        while i < st.submodules.len()
            invariant
                i <= st.submodules.len(),
                sv == st.view(),
                t@ == head + sub_lines(sv.submodules, i as int),
            decreases st.submodules.len() - i,
        {
            assert(sv.submodules[i as int].status == st.submodules@[i as int].status);
            assert(sv.submodules[i as int].name == st.submodules@[i as int].name@);
            crate::text::push_str(&mut t, "\n  ");
            crate::text::push_str(&mut t, sub_icon_str(st.submodules[i].status));
            crate::text::push_str(&mut t, " ");
            crate::text::push_str(&mut t, st.submodules[i].name.as_str());
            i = i + 1;
        }
    }
    assert(t@ =~= status_text_spec(sv));
    crate::text::string_of(&t)
}

fn lines_count(text: &str) -> (r: usize)
    ensures
        r == lines(text@).len(),
{
    crate::text::lines_of(&crate::text::chars_of(text)).len()
}

fn scroll_down_exec(scroll: u16, nlines: usize) -> (r: u16)
    ensures
        r == scroll_down(scroll, nlines as nat),
{
    let m: usize = if nlines == 0 { 0 } else { nlines - 1 };
    #[verifier::truncate]
    let max = m as u16;
    if (scroll as u32) + 1 < max as u32 { scroll + 1 } else { max }
}

fn copy_stash(o: &Option<StashRef>) -> (r: Option<StashRef>)
    ensures
        opt_label(r) == opt_label(*o),
{
    match o {
        Some(st) => Some(StashRef { label: copy_string(&st.label) }),
        None => None,
    }
}

impl Session {
    /// The session over the repositories `repos` (name, path and whether it opened), on
    /// the first one, with the merge strategy; the front end reads its status next.
    pub fn new(repos: Vec<RepoEntry>) -> (r: (Session, SessionCmd))
        ensures
            (r.0.view(), r.1.view()) == reload(SessionV {
                repos: entries_view(repos@),
                current_index: 0,
                screen: ScreenV::Status,
                message: "就绪"@,
                running: None,
                push_after_integrate: false,
                strategy: IntegrationStrategy::Merge,
                progress: None,
                status_scroll: 0,
                pending: PendingV::Idle,
            }, None, false, false),
    {
        let mut v = Session {
            repos,
            current_index: 0,
            screen: Screen::Status,
            message: s("就绪"),
            running: None,
            push_after_integrate: false,
            strategy: IntegrationStrategy::Merge,
            progress: None,
            status_scroll: 0,
            pending: Pending::Idle,
        };
        let c = v.reload(None, false, false);
        (v, c)
    }

    fn current_opened(&self) -> (r: bool)
        ensures
            r == current_opened(self.view()),
    {
        if self.current_index < self.repos.len() {
            assert(self.view().repos[self.current_index as int] == self.repos@[self.current_index as int].view());
            self.repos[self.current_index].opened
        } else {
            false
        }
    }

    fn idle(&mut self) -> (r: SessionCmd)
        ensures
            (final(self).view(), r.view()) == idle(old(self).view()),
    {
        self.pending = Pending::Idle;
        SessionCmd::Idle
    }

    fn spawn_push(&mut self) -> (r: SessionCmd)
        ensures
            (final(self).view(), r.view()) == spawn_push(old(self).view()),
    {
        if self.current_opened() {
            self.running = Some(Running::Push);
            self.progress = None;
            self.message = s("推送中…(Esc 取消)");
            self.pending = Pending::Idle;
            SessionCmd::StartPush
        } else {
            self.idle()
        }
    }

    fn spawn_update(&mut self, push_after: bool) -> (r: SessionCmd)
        ensures
            (final(self).view(), r.view()) == spawn_update(old(self).view(), push_after),
    {
        if self.current_opened() {
            self.running = Some(Running::Update);
            self.push_after_integrate = push_after;
            self.progress = None;
            self.message = if push_after { s("远端领先,正在自动整合…(Esc 取消)") } else { s("更新中…(Esc 取消)") };
            self.pending = Pending::Idle;
            SessionCmd::StartUpdate(self.strategy)
        } else {
            self.idle()
        }
    }

    fn finish_reload(&mut self, after: Option<String>, then_push: bool) -> (r: SessionCmd)
        ensures
            (final(self).view(), r.view()) == finish_reload(old(self).view(), opt_msg(after), then_push),
    {
        match after {
            Some(m) => self.message = m,
            None => {},
        }
        if then_push { self.spawn_push() } else { self.idle() }
    }

    fn reload(&mut self, after: Option<String>, then_push: bool, keep: bool) -> (r: SessionCmd)
        ensures
            (final(self).view(), r.view()) == reload(old(self).view(), opt_msg(after), then_push, keep),
    {
        if !keep {
            self.screen = Screen::Status;
        }
        self.status_scroll = 0;
        if self.current_opened() {
            self.pending = Pending::Reloading(after, then_push);
            SessionCmd::ReadStatus
        } else {
            self.finish_reload(after, then_push)
        }
    }

    fn after_integration(&mut self, o: UpdateOutcome) -> (r: SessionCmd)
        ensures
            (final(self).view(), r.view()) == after_integration(old(self).view(), o.view()),
    {
        match o {
            UpdateOutcome::Conflicted { files, autostash } => {
                self.pending = Pending::OpeningConflict;
                SessionCmd::EnterConflict(files, autostash)
            },
            UpdateOutcome::StashRestoreConflict { .. } => {
                self.push_after_integrate = false;
                self.message = s("整合成功,但 autostash 贴回有冲突,请手动处理");
                self.reload(None, false, false)
            },
            other => {
                self.message = crate::present::describe(&other);
                let again = self.push_after_integrate;
                self.reload(None, again, false)
            },
        }
    }

    fn after_push(&mut self, r: Result<PushOutcome, Error>) -> (cmd: SessionCmd)
        ensures
            (final(self).view(), cmd.view()) == after_push(old(self).view(), match r { Ok(p) => Ok(p), Err(e) => Err(e.view()) }),
    {
        match r {
            Ok(PushOutcome::Success) => {
                self.message = if self.push_after_integrate { s("整合后推送成功") } else { s("推送成功") };
                self.push_after_integrate = false;
                self.reload(None, false, false)
            },
            Ok(PushOutcome::NoUpstream) => {
                self.push_after_integrate = false;
                self.message = s("无 upstream,请先执行 git push -u origin <branch>");
                self.idle()
            },
            Ok(PushOutcome::NonFastForward) => self.spawn_update(true),
            Err(Error::Cancelled) => {
                self.push_after_integrate = false;
                self.message = s("推送已取消");
                self.reload(None, false, false)
            },
            Err(e) => {
                self.push_after_integrate = false;
                self.message = crate::ui::with_error("推送失败: ", &e);
                self.idle()
            },
        }
    }

    /// The background update ended with `r`.
    pub fn update_done(&mut self, r: Result<UpdateOutcome, Error>) -> (cmd: SessionCmd)
        ensures
            (final(self).view(), cmd.view()) == update_done_spec(old(self).view(), match r { Ok(o) => Ok(o.view()), Err(e) => Err(e.view()) }),
    {
        self.running = None;
        self.progress = None;
        match r {
            Ok(o) => self.after_integration(o),
            Err(Error::Cancelled) => {
                self.push_after_integrate = false;
                self.message = s("更新已取消");
                self.reload(None, false, false)
            },
            Err(e) => {
                self.push_after_integrate = false;
                self.message = crate::ui::with_error("更新失败: ", &e);
                self.idle()
            },
        }
    }

    /// The background push ended with `r`.
    pub fn push_done(&mut self, r: Result<PushOutcome, Error>) -> (cmd: SessionCmd)
        ensures
            (final(self).view(), cmd.view()) == push_done_spec(old(self).view(), match r { Ok(p) => Ok(p), Err(e) => Err(e.view()) }),
    {
        self.running = None;
        self.progress = None;
        self.after_push(r)
    }

    /// A progress event of the background operation.
    pub fn on_progress(&mut self, p: Progress)
        ensures
            final(self).view() == (SessionV { progress: progress_opt(Some(p)), ..old(self).view() }),
    {
        self.progress = Some(p);
    }

    /// The background operation went away without a result.
    pub fn on_lost(&mut self)
        ensures
            final(self).view() == (SessionV { running: None, push_after_integrate: false, message: "后台操作意外退出"@, ..old(self).view() }),
    {
        self.running = None;
        self.push_after_integrate = false;
        self.message = s("后台操作意外退出");
    }

    fn status_lines(&self) -> (r: usize)
        ensures
            r == status_lines(self.view()),
    {
        if self.current_index < self.repos.len() {
            assert(self.view().repos[self.current_index as int] == self.repos@[self.current_index as int].view());
            match &self.repos[self.current_index].status {
                Some(st) => lines_count(status_text(st).as_str()),
                None => 0,
            }
        } else {
            0
        }
    }

    fn status_key(&mut self, c: char) -> (r: SessionCmd)
        requires
            old(self).view().screen is Status,
        ensures
            (final(self).view(), r.view()) == status_key(old(self).view(), c),
    {
        if c == 'q' {
            self.pending = Pending::Idle;
            return SessionCmd::Quit;
        }
        if c == 'j' || c == DOWN {
            let n = self.status_lines();
            self.status_scroll = scroll_down_exec(self.status_scroll, n);
            return self.idle();
        }
        if c == 'k' || c == UP {
            if self.status_scroll > 0 {
                self.status_scroll = self.status_scroll - 1;
            }
            return self.idle();
        }
        if c == 'r' {
            return self.reload(Some(s("已刷新")), false, false);
        }
        if c == 'b' || c == 'h' || c == 's' || c == 'l' {
            let k = if c == 'b' { ViewKind::Branch } else if c == 'h' { ViewKind::Stash } else if c == 's' { ViewKind::Stage } else { ViewKind::Log };
            if self.current_opened() {
                self.pending = Pending::Opening(k);
                return SessionCmd::Open(k);
            }
            return self.idle();
        }
        if c == 'S' {
            if self.current_index < self.repos.len() {
                assert(self.view().repos[self.current_index as int] == self.repos@[self.current_index as int].view());
                match &self.repos[self.current_index].status {
                    Some(st) => {
                        if st.submodules.len() == 0 {
                            self.message = s("无子仓库");
                            return self.idle();
                        }
                        self.screen = Screen::Submodule;
                        self.pending = Pending::Idle;
                        return SessionCmd::OpenSubmodules;
                    },
                    None => {},
                }
            }
            return self.idle();
        }
        if c == 'd' {
            if self.current_opened() {
                self.pending = Pending::Diffing;
                return SessionCmd::ShowDiff;
            }
            return self.idle();
        }
        if c == 'p' {
            return self.spawn_push();
        }
        if c == 'u' {
            return self.spawn_update(false);
        }
        if c == 'm' {
            let (st, label) = match self.strategy {
                IntegrationStrategy::Merge => (IntegrationStrategy::Rebase, "rebase"),
                IntegrationStrategy::Rebase => (IntegrationStrategy::Merge, "merge"),
            };
            self.strategy = st;
            self.message = crate::ui::cat2("整合策略已切换为 ", label);
            return self.idle();
        }
        if c == 'R' {
            if self.current_opened() {
                self.pending = Pending::Resuming;
                return SessionCmd::Resume;
            }
            return self.idle();
        }
        self.idle()
    }

    /// Key `c` on the status or diff screen (the sub-views take their own keys).
    pub fn handle_key(&mut self, c: char) -> (r: SessionCmd)
        ensures
            (final(self).view(), r.view()) == key_spec(old(self).view(), c),
    {
        if self.running.is_some() {
            if c == '\x1b' {
                self.message = s("正在取消…");
                self.pending = Pending::Idle;
                return SessionCmd::Cancel;
            }
            return self.idle();
        }
        let mut screen = Screen::Status;
        std::mem::swap(&mut screen, &mut self.screen);
        match screen {
            Screen::Status => self.status_key(c),
            Screen::Diff(text, scroll) => {
                if c == 'q' || c == '\x1b' {
                    return self.reload(None, false, false);
                }
                if c == 'j' || c == DOWN {
                    let n = lines_count(text.as_str());
                    let next = scroll_down_exec(scroll, n);
                    self.screen = Screen::Diff(text, next);
                    return self.idle();
                }
                let next = if (c == 'k' || c == UP) && scroll > 0 { scroll - 1 } else { scroll };
                self.screen = Screen::Diff(text, next);
                self.idle()
            },
            other => {
                self.screen = other;
                self.idle()
            },
        }
    }

    /// Tab: the next repository.
    pub fn tab(&mut self) -> (r: SessionCmd)
        ensures
            (final(self).view(), r.view()) == tab_spec(old(self).view()),
    {
        if self.running.is_some() || self.repos.len() == 0 {
            return self.idle();
        }
        let i = ((self.current_index as u128 + 1) % (self.repos.len() as u128)) as usize;
        assert(i == ((self.current_index + 1) % (self.repos@.len() as int)) as usize);
        assert(self.view().repos[i as int] == self.repos@[i as int].view());
        let m = crate::ui::cat2("切换到: ", self.repos[i].name.as_str());
        self.current_index = i;
        self.reload(Some(m), false, false)
    }

    /// A sub-view ended with `e`.
    pub fn view_ended(&mut self, e: ViewEnd) -> (r: SessionCmd)
        ensures
            (final(self).view(), r.view()) == view_end_spec(old(self).view(), e.view()),
    {
        match e {
            ViewEnd::Back => self.reload(None, false, false),
            ViewEnd::Changed => self.reload(None, false, true),
            ViewEnd::Committed(sha) => {
                self.message = crate::ui::cat2("已提交 ", sha.as_str());
                self.reload(None, false, false)
            },
            ViewEnd::Failed(err) => {
                self.message = crate::ui::with_error("操作失败: ", &err);
                self.idle()
            },
            ViewEnd::Quit => {
                self.pending = Pending::Idle;
                SessionCmd::Quit
            },
            ViewEnd::Continue(a) => {
                self.pending = Pending::Continuing;
                SessionCmd::ContinueUpdate(a)
            },
            ViewEnd::Abort(a) => {
                self.push_after_integrate = false;
                self.pending = Pending::Aborting;
                SessionCmd::AbortUpdate(a)
            },
            ViewEnd::SwitchTo(p) => {
                self.message = crate::ui::cat2("切换子仓库功能开发中: ", p.as_str());
                self.reload(None, false, false)
            },
        }
    }

    /// The result of the command the session waits on.
    pub fn on_reply(&mut self, r: SessionReply) -> (cmd: SessionCmd)
        ensures
            (final(self).view(), cmd.view()) == reply_spec(old(self).view(), r.view()),
    {
        let mut pending = Pending::Idle;
        std::mem::swap(&mut pending, &mut self.pending);
        match (pending, r) {
            (Pending::Reloading(after, then_push), SessionReply::Status(Ok(st))) => {
                if self.current_index < self.repos.len() {
                    let ghost before = entries_view(self.repos@);
                    let idx = self.current_index;
                    let mut e = self.repos.remove(idx);
                    e.status = Some(st);
                    self.repos.insert(idx, e);
                    assert(entries_view(self.repos@) =~= before.update(idx as int, EntryV { status: Some(st.view()), ..before[idx as int] }));
                }
                self.finish_reload(after, then_push)
            },
            (Pending::Reloading(after, then_push), SessionReply::Status(Err(err))) => {
                self.message = crate::ui::with_error("读取状态失败: ", &err);
                self.finish_reload(after, then_push)
            },
            (Pending::Opening(k), SessionReply::Opened(Ok(()))) => {
                self.screen = Screen::View(k);
                self.idle()
            },
            (Pending::Opening(k), SessionReply::Opened(Err(err))) => {
                let prefix = match k {
                    ViewKind::Branch => "加载分支失败: ",
                    ViewKind::Stash => "加载 Stash 失败: ",
                    ViewKind::Stage => "进入 Stage 失败: ",
                    ViewKind::Log => "加载 Log 失败: ",
                };
                self.message = crate::ui::with_error(prefix, &err);
                self.idle()
            },
            (Pending::OpeningConflict, SessionReply::Opened(Ok(()))) => {
                self.screen = Screen::Conflict;
                self.idle()
            },
            (Pending::OpeningConflict, SessionReply::Opened(Err(err))) => {
                self.message = crate::ui::with_error("加载冲突失败: ", &err);
                self.idle()
            },
            (Pending::Diffing, SessionReply::DiffText(Ok(t))) => {
                let blank = crate::text::trim_vec(&crate::text::chars_of(t.as_str())).len() == 0;
                if blank {
                    self.message = s("工作区无改动");
                } else {
                    self.screen = Screen::Diff(t, 0);
                }
                self.idle()
            },
            (Pending::Diffing, SessionReply::DiffText(Err(err))) => {
                self.message = crate::ui::with_error("查看 diff 失败: ", &err);
                self.idle()
            },
            (Pending::Resuming, SessionReply::Resumed(Ok(Some(p)))) => {
                self.pending = Pending::OpeningConflict;
                SessionCmd::EnterConflict(p.files, p.autostash)
            },
            (Pending::Resuming, SessionReply::Resumed(Ok(None))) => {
                self.message = s("没有未完成的整合");
                self.idle()
            },
            (Pending::Resuming, SessionReply::Resumed(Err(err))) => {
                self.message = crate::ui::with_error("恢复失败: ", &err);
                self.idle()
            },
            (Pending::Continuing, SessionReply::Integrated(Ok(o))) => self.after_integration(o),
            (Pending::Continuing, SessionReply::Integrated(Err(err))) => {
                self.push_after_integrate = false;
                self.message = crate::ui::with_error("完成失败: ", &err);
                self.reload(None, false, false)
            },
            (Pending::Aborting, SessionReply::Aborted(Ok(()))) => {
                self.message = s("已放弃整合");
                self.reload(None, false, false)
            },
            (Pending::Aborting, SessionReply::Aborted(Err(err))) => {
                self.message = crate::ui::with_error("放弃失败: ", &err);
                self.reload(None, false, false)
            },
            _ => self.idle(),
        }
    }
}

} // verus!
