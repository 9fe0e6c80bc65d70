//! The stash list: applying, popping, dropping and creating stashes.
use vstd::prelude::*;
use crate::stash::{StashEntry, PopResult, PopV, stash_entries_view};
use crate::error::{Error, ErrorV, error_text};
use crate::text::{trim, decimal};
use crate::repo::{copy_string, s, strs};
use crate::ui::{down_spec, up_spec, can_go_down, clamp_spec, clamp_cursor, edit_spec, edit_input, cat2, cat3, with_error};
use crate::present::with_number;

verus! {

/// What a key in the stash view ends in.
#[derive(Debug, Clone, Copy, PartialEq, Eq, Structural)]
pub enum Action {
    Nothing,
    Back,
    StashChanged,
}

#[derive(Debug, Clone, Copy, PartialEq, Eq, Structural)]
pub enum Mode {
    List,
    CreateInput,
    DropConfirm,
}

/// The git work the view asks for.
pub enum StashOp {
    /// List the stashes.
    List,
    Apply(String),
    Pop(String),
    /// Stash the working tree, with this message if any.
    Push(Option<String>),
    Drop(String),
}

/// The result of that work.
pub enum StashReply {
    Listed(Result<Vec<StashEntry>, Error>),
    Popped(Result<PopResult, Error>),
    Changed(Result<(), Error>),
}

/// What the view wants next: more git work, or the end of the key.
pub enum StashCmd {
    Run(StashOp),
    Finish(Result<Action, Error>),
}

/// The work the view is waiting for.
pub enum Pending {
    Idle,
    Applying(String),
    Popping(String),
    Pushing,
    Dropping(String),
    RelistPopped,
    RelistPushed,
    RelistDropped,
}

pub struct StashView {
    pub stashes: Vec<StashEntry>,
    pub cursor: usize,
    pub mode: Mode,
    pub input: Vec<char>,
    pub message: String,
    pub pending: Pending,
}

// ───────────────────────── model ─────────────────────────

pub type EntryV = (Seq<char>, Seq<char>, Seq<char>);

pub enum OpV {
    List,
    Apply(Seq<char>),
    Pop(Seq<char>),
    Push(Option<Seq<char>>),
    Drop(Seq<char>),
}

pub enum ReplyV {
    Listed(Result<Seq<EntryV>, ErrorV>),
    Popped(Result<PopV, ErrorV>),
    Changed(Result<(), ErrorV>),
}

pub enum CmdV {
    Run(OpV),
    Finish(Result<Action, ErrorV>),
}

pub enum PendingV {
    Idle,
    Applying(Seq<char>),
    Popping(Seq<char>),
    Pushing,
    Dropping(Seq<char>),
    RelistPopped,
    RelistPushed,
    RelistDropped,
}

pub struct StashViewV {
    pub stashes: Seq<EntryV>,
    pub cursor: usize,
    pub mode: Mode,
    pub input: Seq<char>,
    pub message: Seq<char>,
    pub pending: PendingV,
}

impl StashOp {
    pub open spec fn view(&self) -> OpV {
        match self {
            StashOp::List => OpV::List,
            StashOp::Apply(r) => OpV::Apply(r@),
            StashOp::Pop(r) => OpV::Pop(r@),
            StashOp::Push(Some(m)) => OpV::Push(Some(m@)),
            StashOp::Push(None) => OpV::Push(None),
            StashOp::Drop(r) => OpV::Drop(r@),
        }
    }
}

impl StashReply {
    pub open spec fn view(&self) -> ReplyV {
        match self {
            StashReply::Listed(Ok(v)) => ReplyV::Listed(Ok(stash_entries_view(v@))),
            StashReply::Listed(Err(e)) => ReplyV::Listed(Err(e.view())),
            StashReply::Popped(Ok(p)) => ReplyV::Popped(Ok(p.view())),
            StashReply::Popped(Err(e)) => ReplyV::Popped(Err(e.view())),
            StashReply::Changed(Ok(())) => ReplyV::Changed(Ok(())),
            StashReply::Changed(Err(e)) => ReplyV::Changed(Err(e.view())),
        }
    }
}

impl StashCmd {
    pub open spec fn view(&self) -> CmdV {
        match self {
            StashCmd::Run(op) => CmdV::Run(op.view()),
            StashCmd::Finish(Ok(a)) => CmdV::Finish(Ok(*a)),
            StashCmd::Finish(Err(e)) => CmdV::Finish(Err(e.view())),
        }
    }
}

impl Pending {
    pub open spec fn view(&self) -> PendingV {
        match self {
            Pending::Idle => PendingV::Idle,
            Pending::Applying(r) => PendingV::Applying(r@),
            Pending::Popping(r) => PendingV::Popping(r@),
            Pending::Pushing => PendingV::Pushing,
            Pending::Dropping(r) => PendingV::Dropping(r@),
            Pending::RelistPopped => PendingV::RelistPopped,
            Pending::RelistPushed => PendingV::RelistPushed,
            Pending::RelistDropped => PendingV::RelistDropped,
        }
    }
}

impl StashView {
    pub open spec fn view(&self) -> StashViewV {
        StashViewV {
            stashes: stash_entries_view(self.stashes@),
            cursor: self.cursor,
            mode: self.mode,
            input: self.input@,
            message: self.message@,
            pending: self.pending.view(),
        }
    }
}

pub open spec fn help_msg() -> Seq<char> {
    "j/k 导航 · a apply · P pop · d drop · c 创建 · q 返回"@
}

pub open spec fn create_prompt() -> Seq<char> {
    "输入 stash 消息(Enter 创建 / Esc 取消)"@
}

pub open spec fn done(v: StashViewV, a: Action) -> (StashViewV, CmdV) {
    (StashViewV { pending: PendingV::Idle, ..v }, CmdV::Finish(Ok(a)))
}

pub open spec fn run(v: StashViewV, op: OpV, p: PendingV) -> (StashViewV, CmdV) {
    (StashViewV { pending: p, ..v }, CmdV::Run(op))
}

pub open spec fn fail(v: StashViewV, e: ErrorV) -> (StashViewV, CmdV) {
    (StashViewV { pending: PendingV::Idle, ..v }, CmdV::Finish(Err(e)))
}

pub open spec fn start_create(v: StashViewV) -> (StashViewV, CmdV) {
    done(StashViewV { mode: Mode::CreateInput, input: Seq::empty(), message: create_prompt(), ..v }, Action::Nothing)
}

pub open spec fn list_key(v: StashViewV, c: char) -> (StashViewV, CmdV) {
    let n = v.stashes.len();
    if n == 0 {
        if c == 'q' {
            done(v, Action::Back)
        } else if c == 'c' {
            start_create(v)
        } else {
            done(v, Action::Nothing)
        }
    } else if c == 'q' {
        done(v, Action::Back)
    } else if c == 'j' && v.cursor + 1 < n {
        done(StashViewV { cursor: down_spec(v.cursor, n), ..v }, Action::Nothing)
    } else if c == 'k' && v.cursor > 0 {
        done(StashViewV { cursor: up_spec(v.cursor), ..v }, Action::Nothing)
    } else if c == 'a' && v.cursor < n {
        let r = v.stashes[v.cursor as int].0;
        run(v, OpV::Apply(r), PendingV::Applying(r))
    } else if c == 'P' && v.cursor < n {
        let r = v.stashes[v.cursor as int].0;
        run(v, OpV::Pop(r), PendingV::Popping(r))
    } else if c == 'd' && v.cursor < n {
        done(StashViewV { mode: Mode::DropConfirm, message: "确认丢弃 "@ + v.stashes[v.cursor as int].0 + "?(y 确认 / 其他取消)"@, ..v }, Action::Nothing)
    } else if c == 'c' {
        start_create(v)
    } else {
        done(v, Action::Nothing)
    }
}

pub open spec fn create_key(v: StashViewV, c: char) -> (StashViewV, CmdV) {
    if c == '\x1b' {
        done(StashViewV { mode: Mode::List, message: "已取消创建"@, ..v }, Action::Nothing)
    } else if c == '\n' {
        run(v, OpV::Push(if trim(v.input).len() == 0 { None } else { Some(v.input) }), PendingV::Pushing)
    } else {
        done(StashViewV { input: edit_spec(v.input, c), ..v }, Action::Nothing)
    }
}

pub open spec fn drop_key(v: StashViewV, c: char) -> (StashViewV, CmdV) {
    if c == 'y' || c == 'Y' {
        if v.cursor < v.stashes.len() {
            let r = v.stashes[v.cursor as int].0;
            run(v, OpV::Drop(r), PendingV::Dropping(r))
        } else {
            done(v, Action::Nothing)
        }
    } else {
        done(StashViewV { mode: Mode::List, message: "已取消丢弃"@, ..v }, Action::Nothing)
    }
}

/// Key `c`, by mode.
pub open spec fn key_spec(v: StashViewV, c: char) -> (StashViewV, CmdV) {
    match v.mode {
        Mode::List => list_key(v, c),
        Mode::CreateInput => create_key(v, c),
        Mode::DropConfirm => drop_key(v, c),
    }
}

/// The result `r` of the work the view waits for. A result that does not answer it
/// leaves the view as it is.
pub open spec fn reply_spec(v: StashViewV, r: ReplyV) -> (StashViewV, CmdV) {
    match (v.pending, r) {
        (PendingV::Applying(reff), ReplyV::Changed(Ok(()))) => done(StashViewV { message: "已应用 "@ + reff, ..v }, Action::Nothing),
        (PendingV::Applying(_), ReplyV::Changed(Err(e))) => done(StashViewV { message: "应用失败: "@ + error_text(e), ..v }, Action::Nothing),
        (PendingV::Popping(reff), ReplyV::Popped(Ok(PopV::Clean))) =>
            run(StashViewV { message: "已弹出 "@ + reff, ..v }, OpV::List, PendingV::RelistPopped),
        (PendingV::Popping(_), ReplyV::Popped(Ok(PopV::Conflict(files)))) =>
            done(StashViewV { message: "弹出冲突,"@ + decimal(files.len()) + " 个文件需处理"@, ..v }, Action::Nothing),
        (PendingV::Popping(_), ReplyV::Popped(Err(e))) => done(StashViewV { message: "弹出失败: "@ + error_text(e), ..v }, Action::Nothing),
        (PendingV::Pushing, ReplyV::Changed(Ok(()))) =>
            run(StashViewV { message: "已创建 stash"@, mode: Mode::List, ..v }, OpV::List, PendingV::RelistPushed),
        (PendingV::Pushing, ReplyV::Changed(Err(e))) => done(StashViewV { message: "创建失败: "@ + error_text(e), ..v }, Action::Nothing),
        (PendingV::Dropping(reff), ReplyV::Changed(Ok(()))) =>
            run(StashViewV { message: "已丢弃 "@ + reff, ..v }, OpV::List, PendingV::RelistDropped),
        (PendingV::Dropping(_), ReplyV::Changed(Err(e))) =>
            done(StashViewV { message: "丢弃失败: "@ + error_text(e), mode: Mode::List, ..v }, Action::Nothing),
        (PendingV::RelistPopped, ReplyV::Listed(Ok(es))) =>
            done(StashViewV { stashes: es, cursor: clamp_spec(v.cursor, es.len()), ..v }, Action::StashChanged),
        (PendingV::RelistPushed, ReplyV::Listed(Ok(es))) => done(StashViewV { stashes: es, ..v }, Action::StashChanged),
        (PendingV::RelistDropped, ReplyV::Listed(Ok(es))) =>
            done(StashViewV { stashes: es, cursor: clamp_spec(v.cursor, es.len()), mode: Mode::List, ..v }, Action::StashChanged),
        (PendingV::RelistPopped, ReplyV::Listed(Err(e))) => fail(v, e),
        (PendingV::RelistPushed, ReplyV::Listed(Err(e))) => fail(v, e),
        (PendingV::RelistDropped, ReplyV::Listed(Err(e))) => fail(v, e),
        _ => done(v, Action::Nothing),
    }
}

// ───────────────────────── code ─────────────────────────

impl StashView {
    /// The view of `stashes`, the cursor on the first.
    pub fn load(stashes: Vec<StashEntry>) -> (r: StashView)
        ensures
            r.view() == (StashViewV {
                stashes: stash_entries_view(stashes@),
                cursor: 0,
                mode: Mode::List,
                input: Seq::empty(),
                message: help_msg(),
                pending: PendingV::Idle,
            }),
    {
        StashView {
            stashes,
            cursor: 0,
            mode: Mode::List,
            input: Vec::new(),
            message: s("j/k 导航 · a apply · P pop · d drop · c 创建 · q 返回"),
            pending: Pending::Idle,
        }
    }

    fn finish(&mut self, a: Action) -> (r: StashCmd)
        ensures
            (final(self).view(), r.view()) == done(old(self).view(), a),
    {
        self.pending = Pending::Idle;
        StashCmd::Finish(Ok(a))
    }

    fn start_create(&mut self) -> (r: StashCmd)
        ensures
            (final(self).view(), r.view()) == start_create(old(self).view()),
    {
        self.mode = Mode::CreateInput;
        self.input = Vec::new();
        self.message = s("输入 stash 消息(Enter 创建 / Esc 取消)");
        self.finish(Action::Nothing)
    }

    fn list_key(&mut self, c: char) -> (r: StashCmd)
        requires
            old(self).mode == Mode::List,
        ensures
            (final(self).view(), r.view()) == list_key(old(self).view(), c),
    {
        let n = self.stashes.len();
        if n == 0 {
            if c == 'q' {
                return self.finish(Action::Back);
            }
            if c == 'c' {
                return self.start_create();
            }
            return self.finish(Action::Nothing);
        }
        if c == 'q' {
            return self.finish(Action::Back);
        }
        if c == 'j' && can_go_down(self.cursor, n) {
            self.cursor = self.cursor + 1;
            return self.finish(Action::Nothing);
        }
        if c == 'k' && self.cursor > 0 {
            self.cursor = self.cursor - 1;
            return self.finish(Action::Nothing);
        }
        if c == 'a' && self.cursor < n {
            let r = copy_string(&self.stashes[self.cursor].reff);
            self.pending = Pending::Applying(copy_string(&r));
            return StashCmd::Run(StashOp::Apply(r));
        }
        if c == 'P' && self.cursor < n {
            let r = copy_string(&self.stashes[self.cursor].reff);
            self.pending = Pending::Popping(copy_string(&r));
            return StashCmd::Run(StashOp::Pop(r));
        }
        if c == 'd' && self.cursor < n {
            self.mode = Mode::DropConfirm;
            self.message = cat3("确认丢弃 ", self.stashes[self.cursor].reff.as_str(), "?(y 确认 / 其他取消)");
            return self.finish(Action::Nothing);
        }
        if c == 'c' {
            return self.start_create();
        }
        self.finish(Action::Nothing)
    }

    fn create_key(&mut self, c: char) -> (r: StashCmd)
        requires
            old(self).mode == Mode::CreateInput,
        ensures
            (final(self).view(), r.view()) == create_key(old(self).view(), c),
    {
        if c == '\x1b' {
            self.mode = Mode::List;
            self.message = s("已取消创建");
            return self.finish(Action::Nothing);
        }
        if c == '\n' {
            let t = crate::text::trim_vec(&self.input);
            let msg = if t.len() == 0 { None } else { Some(crate::text::string_of(&self.input)) };
            self.pending = Pending::Pushing;
            return StashCmd::Run(StashOp::Push(msg));
        }
        edit_input(&mut self.input, c);
        self.finish(Action::Nothing)
    }

    fn drop_key(&mut self, c: char) -> (r: StashCmd)
        requires
            old(self).mode == Mode::DropConfirm,
        ensures
            (final(self).view(), r.view()) == drop_key(old(self).view(), c),
    {
        if c == 'y' || c == 'Y' {
            if self.cursor < self.stashes.len() {
                let r = copy_string(&self.stashes[self.cursor].reff);
                self.pending = Pending::Dropping(copy_string(&r));
                return StashCmd::Run(StashOp::Drop(r));
            }
            return self.finish(Action::Nothing);
        }
        self.mode = Mode::List;
        self.message = s("已取消丢弃");
        self.finish(Action::Nothing)
    }

    /// Key `c`: the view's next state, and the git work it needs or how the key ends.
    pub fn handle_key(&mut self, c: char) -> (r: StashCmd)
        ensures
            (final(self).view(), r.view()) == key_spec(old(self).view(), c),
    {
        match self.mode {
            Mode::List => self.list_key(c),
            Mode::CreateInput => self.create_key(c),
            Mode::DropConfirm => self.drop_key(c),
        }
    }

    /// The result of the git work the view asked for.
    pub fn on_reply(&mut self, r: StashReply) -> (cmd: StashCmd)
        ensures
            (final(self).view(), cmd.view()) == reply_spec(old(self).view(), r.view()),
    {
        let mut pending = Pending::Idle;
        std::mem::swap(&mut pending, &mut self.pending);
        match (pending, r) {
            (Pending::Applying(reff), StashReply::Changed(Ok(()))) => {
                self.message = cat2("已应用 ", reff.as_str());
                StashCmd::Finish(Ok(Action::Nothing))
            },
            (Pending::Applying(_), StashReply::Changed(Err(e))) => {
                self.message = with_error("应用失败: ", &e);
                StashCmd::Finish(Ok(Action::Nothing))
            },
            (Pending::Popping(reff), StashReply::Popped(Ok(PopResult::Clean))) => {
                self.message = cat2("已弹出 ", reff.as_str());
                self.pending = Pending::RelistPopped;
                StashCmd::Run(StashOp::List)
            },
            (Pending::Popping(_), StashReply::Popped(Ok(PopResult::Conflict(files)))) => {
                proof { assert(strs(files@).len() == files.len()); }
                self.message = with_number("弹出冲突,", files.len() as u64, " 个文件需处理");
                StashCmd::Finish(Ok(Action::Nothing))
            },
            (Pending::Popping(_), StashReply::Popped(Err(e))) => {
                self.message = with_error("弹出失败: ", &e);
                StashCmd::Finish(Ok(Action::Nothing))
            },
            (Pending::Pushing, StashReply::Changed(Ok(()))) => {
                self.message = s("已创建 stash");
                self.mode = Mode::List;
                self.pending = Pending::RelistPushed;
                StashCmd::Run(StashOp::List)
            },
            (Pending::Pushing, StashReply::Changed(Err(e))) => {
                self.message = with_error("创建失败: ", &e);
                StashCmd::Finish(Ok(Action::Nothing))
            },
            (Pending::Dropping(reff), StashReply::Changed(Ok(()))) => {
                self.message = cat2("已丢弃 ", reff.as_str());
                self.pending = Pending::RelistDropped;
                StashCmd::Run(StashOp::List)
            },
            (Pending::Dropping(_), StashReply::Changed(Err(e))) => {
                self.message = with_error("丢弃失败: ", &e);
                self.mode = Mode::List;
                StashCmd::Finish(Ok(Action::Nothing))
            },
            (Pending::RelistPopped, StashReply::Listed(Ok(es))) => {
                self.cursor = clamp_cursor(self.cursor, es.len());
                self.stashes = es;
                StashCmd::Finish(Ok(Action::StashChanged))
            },
            (Pending::RelistPushed, StashReply::Listed(Ok(es))) => {
                self.stashes = es;
                StashCmd::Finish(Ok(Action::StashChanged))
            },
            (Pending::RelistDropped, StashReply::Listed(Ok(es))) => {
                self.cursor = clamp_cursor(self.cursor, es.len());
                self.stashes = es;
                self.mode = Mode::List;
                StashCmd::Finish(Ok(Action::StashChanged))
            },
            (Pending::RelistPopped, StashReply::Listed(Err(e))) => StashCmd::Finish(Err(e)),
            (Pending::RelistPushed, StashReply::Listed(Err(e))) => StashCmd::Finish(Err(e)),
            (Pending::RelistDropped, StashReply::Listed(Err(e))) => StashCmd::Finish(Err(e)),
            _ => StashCmd::Finish(Ok(Action::Nothing)),
        }
    }
}

} // verus!
