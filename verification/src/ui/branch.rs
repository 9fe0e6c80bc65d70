//! The branch list: moving, switching to, creating and deleting branches.
use vstd::prelude::*;
use crate::branch::{BranchInfo, BranchV, branches_view};
use crate::error::{Error, ErrorV, error_text};
use crate::text::trim;
use crate::repo::{copy_string, s};
use crate::ui::{DOWN, UP, down_spec, up_spec, can_go_down, clamp_spec, clamp_cursor, edit_spec, edit_input, cat2, cat3, with_error};

verus! {

/// What a key in the branch view ends in.
#[derive(Debug, Clone, Copy, PartialEq, Eq, Structural)]
pub enum Action {
    Nothing,
    Back,
    BranchesChanged,
}

#[derive(Debug, Clone, Copy, PartialEq, Eq, Structural)]
pub enum Mode {
    List,
    CreateInput,
    DeleteConfirm,
}

/// The git work the view asks for.
pub enum BranchOp {
    /// List the local branches.
    List,
    Switch(String),
    Create(String),
    Delete(String),
}

/// The result of that work.
pub enum BranchReply {
    Listed(Result<Vec<BranchInfo>, Error>),
    Changed(Result<(), Error>),
}

/// What the view wants next: more git work, or the end of the key.
pub enum BranchCmd {
    Run(BranchOp),
    Finish(Result<Action, Error>),
}

/// The work the view is waiting for.
pub enum Pending {
    Idle,
    Switching(String),
    Creating(String),
    Deleting(String),
    RelistSwitched,
    RelistCreated(String),
    RelistDeleted,
}

pub struct BranchView {
    pub branches: Vec<BranchInfo>,
    pub cursor: usize,
    pub mode: Mode,
    pub input: Vec<char>,
    pub message: String,
    pub pending: Pending,
}

// ───────────────────────── model ─────────────────────────

pub enum OpV {
    List,
    Switch(Seq<char>),
    Create(Seq<char>),
    Delete(Seq<char>),
}

pub enum ReplyV {
    Listed(Result<Seq<BranchV>, ErrorV>),
    Changed(Result<(), ErrorV>),
}

pub enum CmdV {
    Run(OpV),
    Finish(Result<Action, ErrorV>),
}

pub enum PendingV {
    Idle,
    Switching(Seq<char>),
    Creating(Seq<char>),
    Deleting(Seq<char>),
    RelistSwitched,
    RelistCreated(Seq<char>),
    RelistDeleted,
}

pub struct BranchViewV {
    pub branches: Seq<BranchV>,
    pub cursor: usize,
    pub mode: Mode,
    pub input: Seq<char>,
    pub message: Seq<char>,
    pub pending: PendingV,
}

impl BranchOp {
    pub open spec fn view(&self) -> OpV {
        match self {
            BranchOp::List => OpV::List,
            BranchOp::Switch(n) => OpV::Switch(n@),
            BranchOp::Create(n) => OpV::Create(n@),
            BranchOp::Delete(n) => OpV::Delete(n@),
        }
    }
}

impl BranchReply {
    pub open spec fn view(&self) -> ReplyV {
        match self {
            BranchReply::Listed(Ok(v)) => ReplyV::Listed(Ok(branches_view(v@))),
            BranchReply::Listed(Err(e)) => ReplyV::Listed(Err(e.view())),
            BranchReply::Changed(Ok(())) => ReplyV::Changed(Ok(())),
            BranchReply::Changed(Err(e)) => ReplyV::Changed(Err(e.view())),
        }
    }
}

impl BranchCmd {
    pub open spec fn view(&self) -> CmdV {
        match self {
            BranchCmd::Run(op) => CmdV::Run(op.view()),
            BranchCmd::Finish(Ok(a)) => CmdV::Finish(Ok(*a)),
            BranchCmd::Finish(Err(e)) => CmdV::Finish(Err(e.view())),
        }
    }
}

impl Pending {
    pub open spec fn view(&self) -> PendingV {
        match self {
            Pending::Idle => PendingV::Idle,
            Pending::Switching(n) => PendingV::Switching(n@),
            Pending::Creating(n) => PendingV::Creating(n@),
            Pending::Deleting(n) => PendingV::Deleting(n@),
            Pending::RelistSwitched => PendingV::RelistSwitched,
            Pending::RelistCreated(n) => PendingV::RelistCreated(n@),
            Pending::RelistDeleted => PendingV::RelistDeleted,
        }
    }
}

impl BranchView {
    pub open spec fn view(&self) -> BranchViewV {
        BranchViewV {
            branches: branches_view(self.branches@),
            cursor: self.cursor,
            mode: self.mode,
            input: self.input@,
            message: self.message@,
            pending: self.pending.view(),
        }
    }
}

pub open spec fn help_msg() -> Seq<char> {
    "j/k 导航 · Enter 切换 · c 创建 · d 删除 · q/Esc 返回"@
}

/// The first current branch at or after `i`.
pub open spec fn current_from(bs: Seq<BranchV>, i: int) -> Option<int>
    decreases bs.len() - i,
{
    if i < 0 || i >= bs.len() {
        None
    } else if bs[i].is_current {
        Some(i)
    } else {
        current_from(bs, i + 1)
    }
}

/// The first branch named `name` at or after `i`.
pub open spec fn named_from(bs: Seq<BranchV>, name: Seq<char>, i: int) -> Option<int>
    decreases bs.len() - i,
{
    if i < 0 || i >= bs.len() {
        None
    } else if bs[i].name == name {
        Some(i)
    } else {
        named_from(bs, name, i + 1)
    }
}

/// The cursor on the current branch, else on the first.
pub open spec fn on_current(bs: Seq<BranchV>) -> usize {
    match current_from(bs, 0) {
        Some(i) => i as usize,
        None => 0,
    }
}

/// A key that needs no git work: the new state, and the key's end.
pub open spec fn done(v: BranchViewV, a: Action) -> (BranchViewV, CmdV) {
    (BranchViewV { pending: PendingV::Idle, ..v }, CmdV::Finish(Ok(a)))
}

/// Git work to do next, waited for as `p`.
pub open spec fn run(v: BranchViewV, op: OpV, p: PendingV) -> (BranchViewV, CmdV) {
    (BranchViewV { pending: p, ..v }, CmdV::Run(op))
}

pub open spec fn list_key(v: BranchViewV, c: char) -> (BranchViewV, CmdV) {
    let n = v.branches.len();
    if c == 'q' || c == '\x1b' {
        done(v, Action::Back)
    } else if (c == 'j' || c == DOWN) && v.cursor + 1 < n {
        done(BranchViewV { cursor: down_spec(v.cursor, n), ..v }, Action::Nothing)
    } else if (c == 'k' || c == UP) && v.cursor > 0 {
        done(BranchViewV { cursor: up_spec(v.cursor), ..v }, Action::Nothing)
    } else if c == '\n' {
        if v.cursor < n {
            let b = v.branches[v.cursor as int];
            if b.is_current {
                done(BranchViewV { message: "已在分支 "@ + b.name, ..v }, Action::Nothing)
            } else {
                run(v, OpV::Switch(b.name), PendingV::Switching(b.name))
            }
        } else {
            done(v, Action::Nothing)
        }
    } else if c == 'c' {
        done(BranchViewV { mode: Mode::CreateInput, input: Seq::empty(), message: "输入新分支名(Enter 创建 / Esc 取消)"@, ..v }, Action::Nothing)
    } else if c == 'd' && v.cursor < n {
        let b = v.branches[v.cursor as int];
        if b.is_current {
            done(BranchViewV { message: "不能删除当前分支"@, ..v }, Action::Nothing)
        } else {
            done(BranchViewV { mode: Mode::DeleteConfirm, message: "确认删除 "@ + b.name + "?(y 确认 / 其他取消)"@, ..v }, Action::Nothing)
        }
    } else {
        done(v, Action::Nothing)
    }
}

pub open spec fn create_key(v: BranchViewV, c: char) -> (BranchViewV, CmdV) {
    if c == '\x1b' {
        done(BranchViewV { mode: Mode::List, message: "已取消创建"@, ..v }, Action::Nothing)
    } else if c == '\n' {
        if trim(v.input).len() == 0 {
            done(BranchViewV { message: "分支名不能为空"@, ..v }, Action::Nothing)
        } else {
            run(v, OpV::Create(v.input), PendingV::Creating(v.input))
        }
    } else {
        done(BranchViewV { input: edit_spec(v.input, c), ..v }, Action::Nothing)
    }
}

pub open spec fn delete_key(v: BranchViewV, c: char) -> (BranchViewV, CmdV) {
    if c == 'y' || c == 'Y' {
        if v.cursor < v.branches.len() {
            let name = v.branches[v.cursor as int].name;
            run(v, OpV::Delete(name), PendingV::Deleting(name))
        } else {
            done(v, Action::Nothing)
        }
    } else {
        done(BranchViewV { mode: Mode::List, message: "已取消删除"@, ..v }, Action::Nothing)
    }
}

/// Key `c`, by mode.
pub open spec fn key_spec(v: BranchViewV, c: char) -> (BranchViewV, CmdV) {
    match v.mode {
        Mode::List => list_key(v, c),
        Mode::CreateInput => create_key(v, c),
        Mode::DeleteConfirm => delete_key(v, c),
    }
}

/// The result `r` of the work the view waits for. A result that does not answer it
/// leaves the view as it is.
pub open spec fn reply_spec(v: BranchViewV, r: ReplyV) -> (BranchViewV, CmdV) {
    match (v.pending, r) {
        (PendingV::Switching(name), ReplyV::Changed(Ok(()))) =>
            run(BranchViewV { message: "已切换到 "@ + name, ..v }, OpV::List, PendingV::RelistSwitched),
        (PendingV::Switching(_), ReplyV::Changed(Err(e))) =>
            done(BranchViewV { message: "切换失败: "@ + error_text(e), ..v }, Action::Nothing),
        (PendingV::Creating(name), ReplyV::Changed(Ok(()))) =>
            run(BranchViewV { message: "已创建分支 "@ + name, mode: Mode::List, ..v }, OpV::List, PendingV::RelistCreated(name)),
        (PendingV::Creating(_), ReplyV::Changed(Err(e))) =>
            done(BranchViewV { message: "创建失败: "@ + error_text(e), ..v }, Action::Nothing),
        (PendingV::Deleting(name), ReplyV::Changed(Ok(()))) =>
            run(BranchViewV { message: "已删除分支 "@ + name, ..v }, OpV::List, PendingV::RelistDeleted),
        (PendingV::Deleting(_), ReplyV::Changed(Err(e))) =>
            done(BranchViewV { message: "删除失败: "@ + error_text(e), mode: Mode::List, ..v }, Action::Nothing),
        (PendingV::RelistSwitched, ReplyV::Listed(Ok(bs))) =>
            done(BranchViewV { branches: bs, cursor: on_current(bs), ..v }, Action::BranchesChanged),
        (PendingV::RelistCreated(name), ReplyV::Listed(Ok(bs))) =>
            done(BranchViewV {
                branches: bs,
                cursor: match named_from(bs, name, 0) { Some(i) => i as usize, None => v.cursor },
                ..v
            }, Action::BranchesChanged),
        (PendingV::RelistDeleted, ReplyV::Listed(Ok(bs))) =>
            done(BranchViewV { branches: bs, cursor: clamp_spec(v.cursor, bs.len()), mode: Mode::List, ..v }, Action::BranchesChanged),
        (PendingV::RelistSwitched, ReplyV::Listed(Err(e))) => (BranchViewV { pending: PendingV::Idle, ..v }, CmdV::Finish(Err(e))),
        (PendingV::RelistCreated(_), ReplyV::Listed(Err(e))) => (BranchViewV { pending: PendingV::Idle, ..v }, CmdV::Finish(Err(e))),
        (PendingV::RelistDeleted, ReplyV::Listed(Err(e))) => (BranchViewV { pending: PendingV::Idle, ..v }, CmdV::Finish(Err(e))),
        _ => done(v, Action::Nothing),
    }
}

// ───────────────────────── code ─────────────────────────

fn current_index(bs: &Vec<BranchInfo>) -> (r: usize)
    ensures
        r == on_current(branches_view(bs@)),
{
    let ghost bv = branches_view(bs@);
    let mut i: usize = 0;
    while i < bs.len()
        invariant
            i <= bs.len(),
            bv == branches_view(bs@),
            current_from(bv, 0) == current_from(bv, i as int),
        decreases bs.len() - i,
    {
        if bs[i].is_current {
            return i;
        }
        i = i + 1;
    }
    0
}

fn named_index(bs: &Vec<BranchInfo>, name: &String, otherwise: usize) -> (r: usize)
    ensures
        r == (match named_from(branches_view(bs@), name@, 0) { Some(i) => i as usize, None => otherwise }),
{
    let ghost bv = branches_view(bs@);
    let mut i: usize = 0;
    while i < bs.len()
        invariant
            i <= bs.len(),
            bv == branches_view(bs@),
            named_from(bv, name@, 0) == named_from(bv, name@, i as int),
        decreases bs.len() - i,
    {
        if crate::text::eq_str(&crate::text::chars_of(bs[i].name.as_str()), name.as_str()) {
            return i;
        }
        i = i + 1;
    }
    otherwise
}

impl BranchView {
    /// The view of `branches`, the cursor on the current one.
    pub fn load(branches: Vec<BranchInfo>) -> (r: BranchView)
        ensures
            r.view() == (BranchViewV {
                branches: branches_view(branches@),
                cursor: on_current(branches_view(branches@)),
                mode: Mode::List,
                input: Seq::empty(),
                message: help_msg(),
                pending: PendingV::Idle,
            }),
    {
        let cursor = current_index(&branches);
        BranchView {
            branches,
            cursor,
            mode: Mode::List,
            input: Vec::new(),
            message: s("j/k 导航 · Enter 切换 · c 创建 · d 删除 · q/Esc 返回"),
            pending: Pending::Idle,
        }
    }

    fn finish(&mut self, a: Action) -> (r: BranchCmd)
        ensures
            (final(self).view(), r.view()) == done(old(self).view(), a),
    {
        self.pending = Pending::Idle;
        BranchCmd::Finish(Ok(a))
    }

    fn list_key(&mut self, c: char) -> (r: BranchCmd)
        requires
            old(self).mode == Mode::List,
        ensures
            (final(self).view(), r.view()) == list_key(old(self).view(), c),
    {
        let n = self.branches.len();
        if c == 'q' || c == '\x1b' {
            return self.finish(Action::Back);
        }
        if (c == 'j' || c == DOWN) && can_go_down(self.cursor, n) {
            self.cursor = self.cursor + 1;
            return self.finish(Action::Nothing);
        }
        if (c == 'k' || c == UP) && self.cursor > 0 {
            self.cursor = self.cursor - 1;
            return self.finish(Action::Nothing);
        }
        if c == '\n' {
            if self.cursor < n {
                let name = copy_string(&self.branches[self.cursor].name);
                if self.branches[self.cursor].is_current {
                    self.message = cat2("已在分支 ", name.as_str());
                    return self.finish(Action::Nothing);
                }
                self.pending = Pending::Switching(copy_string(&name));
                return BranchCmd::Run(BranchOp::Switch(name));
            }
            return self.finish(Action::Nothing);
        }
        if c == 'c' {
            self.mode = Mode::CreateInput;
            self.input = Vec::new();
            self.message = s("输入新分支名(Enter 创建 / Esc 取消)");
            return self.finish(Action::Nothing);
        }
        if c == 'd' && self.cursor < n {
            if self.branches[self.cursor].is_current {
                self.message = s("不能删除当前分支");
            } else {
                self.mode = Mode::DeleteConfirm;
                self.message = cat3("确认删除 ", self.branches[self.cursor].name.as_str(), "?(y 确认 / 其他取消)");
            }
            return self.finish(Action::Nothing);
        }
        self.finish(Action::Nothing)
    }

    fn create_key(&mut self, c: char) -> (r: BranchCmd)
        requires
            old(self).mode == Mode::CreateInput,
        ensures
            (final(self).view(), r.view()) == create_key(old(self).view(), c),
    {
        if c == '\x1b' {
            self.mode = Mode::List;
            self.message = s("已取消创建");
            return self.finish(Action::Nothing);
        }
        if c == '\n' {
            let t = crate::text::trim_vec(&self.input);
            if t.len() == 0 {
                self.message = s("分支名不能为空");
                return self.finish(Action::Nothing);
            }
            let name = crate::text::string_of(&self.input);
            self.pending = Pending::Creating(copy_string(&name));
            return BranchCmd::Run(BranchOp::Create(name));
        }
        edit_input(&mut self.input, c);
        self.finish(Action::Nothing)
    }

    fn delete_key(&mut self, c: char) -> (r: BranchCmd)
        requires
            old(self).mode == Mode::DeleteConfirm,
        ensures
            (final(self).view(), r.view()) == delete_key(old(self).view(), c),
    {
        if c == 'y' || c == 'Y' {
            if self.cursor < self.branches.len() {
                let name = copy_string(&self.branches[self.cursor].name);
                self.pending = Pending::Deleting(copy_string(&name));
                return BranchCmd::Run(BranchOp::Delete(name));
            }
            return self.finish(Action::Nothing);
        }
        self.mode = Mode::List;
        self.message = s("已取消删除");
        self.finish(Action::Nothing)
    }

    /// Key `c`: the view's next state, and the git work it needs or how the key ends.
    pub fn handle_key(&mut self, c: char) -> (r: BranchCmd)
        ensures
            (final(self).view(), r.view()) == key_spec(old(self).view(), c),
    {
        match self.mode {
            Mode::List => self.list_key(c),
            Mode::CreateInput => self.create_key(c),
            Mode::DeleteConfirm => self.delete_key(c),
        }
    }

    /// The result of the git work the view asked for.
    pub fn on_reply(&mut self, r: BranchReply) -> (cmd: BranchCmd)
        ensures
            (final(self).view(), cmd.view()) == reply_spec(old(self).view(), r.view()),
    {
        let mut pending = Pending::Idle;
        std::mem::swap(&mut pending, &mut self.pending);
        match (pending, r) {
            (Pending::Switching(name), BranchReply::Changed(Ok(()))) => {
                self.message = cat2("已切换到 ", name.as_str());
                self.pending = Pending::RelistSwitched;
                BranchCmd::Run(BranchOp::List)
            },
            (Pending::Switching(_), BranchReply::Changed(Err(e))) => {
                self.message = with_error("切换失败: ", &e);
                BranchCmd::Finish(Ok(Action::Nothing))
            },
            (Pending::Creating(name), BranchReply::Changed(Ok(()))) => {
                self.message = cat2("已创建分支 ", name.as_str());
                self.mode = Mode::List;
                self.pending = Pending::RelistCreated(name);
                BranchCmd::Run(BranchOp::List)
            },
            (Pending::Creating(_), BranchReply::Changed(Err(e))) => {
                self.message = with_error("创建失败: ", &e);
                BranchCmd::Finish(Ok(Action::Nothing))
            },
            (Pending::Deleting(name), BranchReply::Changed(Ok(()))) => {
                self.message = cat2("已删除分支 ", name.as_str());
                self.pending = Pending::RelistDeleted;
                BranchCmd::Run(BranchOp::List)
            },
            (Pending::Deleting(_), BranchReply::Changed(Err(e))) => {
                self.message = with_error("删除失败: ", &e);
                self.mode = Mode::List;
                BranchCmd::Finish(Ok(Action::Nothing))
            },
            (Pending::RelistSwitched, BranchReply::Listed(Ok(bs))) => {
                self.cursor = current_index(&bs);
                self.branches = bs;
                BranchCmd::Finish(Ok(Action::BranchesChanged))
            },
            (Pending::RelistCreated(name), BranchReply::Listed(Ok(bs))) => {
                self.cursor = named_index(&bs, &name, self.cursor);
                self.branches = bs;
                BranchCmd::Finish(Ok(Action::BranchesChanged))
            },
            (Pending::RelistDeleted, BranchReply::Listed(Ok(bs))) => {
                self.cursor = clamp_cursor(self.cursor, bs.len());
                self.branches = bs;
                self.mode = Mode::List;
                BranchCmd::Finish(Ok(Action::BranchesChanged))
            },
            (Pending::RelistSwitched, BranchReply::Listed(Err(e))) => BranchCmd::Finish(Err(e)),
            (Pending::RelistCreated(_), BranchReply::Listed(Err(e))) => BranchCmd::Finish(Err(e)),
            (Pending::RelistDeleted, BranchReply::Listed(Err(e))) => BranchCmd::Finish(Err(e)),
            _ => BranchCmd::Finish(Ok(Action::Nothing)),
        }
    }
}


// ───────────────────────── laws ─────────────────────────

/// The current branch is never deleted: `d` then `y` on the list asks to delete only the
/// branch under the cursor, and only when it is not the current one.
pub proof fn law_current_branch_never_deleted(v: BranchViewV, name: Seq<char>)
    requires
        v.mode == Mode::List,
        key_spec(key_spec(v, 'd').0, 'y').1 == CmdV::Run(OpV::Delete(name)),
    ensures
        v.cursor < v.branches.len(),
        v.branches[v.cursor as int].name == name,
        !v.branches[v.cursor as int].is_current,
{
}

} // verus!
