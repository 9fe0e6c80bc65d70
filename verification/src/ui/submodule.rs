//! The submodule list: moving the cursor and entering a submodule.
use vstd::prelude::*;
use crate::submodule::{Submodule, SubmoduleV, SubmoduleStatus, subs_view};
use crate::repo::copy_string;
use crate::ui::{down_spec, up_spec, can_go_down};

verus! {

/// What a key in the submodule list ends in.
pub enum Action {
    Nothing,
    Back,
    /// Open the submodule at this path.
    SwitchTo(String),
}

pub enum ActionV {
    Nothing,
    Back,
    SwitchTo(Seq<char>),
}

impl Action {
    pub open spec fn view(&self) -> ActionV {
        match self {
            Action::Nothing => ActionV::Nothing,
            Action::Back => ActionV::Back,
            Action::SwitchTo(p) => ActionV::SwitchTo(p@),
        }
    }
}

pub struct SubmoduleView {
    pub submodules: Vec<Submodule>,
    pub cursor: usize,
    pub message: String,
}

pub struct SubmoduleViewV {
    pub submodules: Seq<SubmoduleV>,
    pub cursor: usize,
    pub message: Seq<char>,
}

impl SubmoduleView {
    pub open spec fn view(&self) -> SubmoduleViewV {
        SubmoduleViewV { submodules: subs_view(self.submodules@), cursor: self.cursor, message: self.message@ }
    }
}

pub open spec fn help_msg() -> Seq<char> {
    "j/k 上下 · Enter 切换 · q 返回"@
}

pub open spec fn uninit_msg() -> Seq<char> {
    "子仓库未初始化,请先执行 git submodule update --init"@
}

/// Key `c` in the list: `q` goes back, `j`/`k` move, Enter opens the
/// submodule under the cursor unless it is not initialised.
pub open spec fn key_spec(v: SubmoduleViewV, c: char) -> (SubmoduleViewV, ActionV) {
    if c == 'q' {
        (v, ActionV::Back)
    } else if c == 'j' && v.cursor + 1 < v.submodules.len() {
        (SubmoduleViewV { cursor: down_spec(v.cursor, v.submodules.len()), ..v }, ActionV::Nothing)
    } else if c == 'k' && v.cursor > 0 {
        (SubmoduleViewV { cursor: up_spec(v.cursor), ..v }, ActionV::Nothing)
    } else if (c == '\n' || c == '\r') && v.cursor < v.submodules.len() {
        if v.submodules[v.cursor as int].status == SubmoduleStatus::Uninitialized {
            (SubmoduleViewV { message: uninit_msg(), ..v }, ActionV::Nothing)
        } else {
            (v, ActionV::SwitchTo(v.submodules[v.cursor as int].path))
        }
    } else {
        (v, ActionV::Nothing)
    }
}

impl SubmoduleView {
    /// The list of `submodules`, the cursor on the first.
    pub fn load(submodules: Vec<Submodule>) -> (r: SubmoduleView)
        ensures
            r.view() == (SubmoduleViewV { submodules: subs_view(submodules@), cursor: 0, message: help_msg() }),
    {
        SubmoduleView { submodules, cursor: 0, message: crate::repo::s("j/k 上下 · Enter 切换 · q 返回") }
    }

    pub fn handle_key(&mut self, c: char) -> (r: Action)
        ensures
            (final(self).view(), r.view()) == key_spec(old(self).view(), c),
    {
        if c == 'q' {
            return Action::Back;
        }
        if c == 'j' && can_go_down(self.cursor, self.submodules.len()) {
            self.cursor = self.cursor + 1;
            return Action::Nothing;
        }
        if c == 'k' && self.cursor > 0 {
            self.cursor = self.cursor - 1;
            return Action::Nothing;
        }
        if (c == '\n' || c == '\r') && self.cursor < self.submodules.len() {
            let sub = &self.submodules[self.cursor];
            if sub.status == SubmoduleStatus::Uninitialized {
                self.message = crate::repo::s("子仓库未初始化,请先执行 git submodule update --init");
                return Action::Nothing;
            }
            return Action::SwitchTo(copy_string(&sub.path));
        }
        Action::Nothing
    }
}

} // verus!
