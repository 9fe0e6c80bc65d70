use gitcore::branch::BranchInfo;
use gitcore::error::Error;
use gitcore::stash::{PopResult, StashEntry, StashRef};
use gitcore::status::{FileState, FileStatus};
use gitcore::submodule::{Submodule, SubmoduleStatus};
use gitcore::ui::branch::{self as bv, BranchCmd, BranchOp, BranchReply, BranchView};
use gitcore::ui::conflict::{self as cv, ConflictCmd, ConflictOp, ConflictReply, ConflictView};
use gitcore::ui::diff::{self as dv, DiffCmd, DiffOp, DiffReply, DiffView};
use gitcore::ui::log::{self as lv, LogCmd, LogOp, LogReply, LogView};
use gitcore::ui::stage::{self as sv, StageCmd, StageOp, StageReply, StageView};
use gitcore::ui::stash::{self as tv, StashCmd, StashOp, StashReply, StashView};
use gitcore::ui::submodule::{Action as SubAction, SubmoduleView};
use gitcore::hunk::{DiffLine, FileDiff, Hunk, LineKind};
use gitcore::log::{GraphRow, LogEntry};
use gitcore::resolve::{Choice, ConflictHunk, Segment};
use gitcore::clipboard::{candidates, copy};
use gitcore::repo::{Reply, Request, Step};

fn branch(name: &str, current: bool) -> BranchInfo {
    BranchInfo { name: name.to_string(), is_current: current, upstream: None, ahead: 0, behind: 0, is_remote: false }
}

#[test]
fn submodule_enter_opens_or_explains() {
    let subs = vec![
        Submodule { name: "a".into(), path: "libs/a".into(), status: SubmoduleStatus::Uninitialized },
        Submodule { name: "b".into(), path: "libs/b".into(), status: SubmoduleStatus::Clean },
    ];
    let mut v = SubmoduleView::load(subs);
    assert!(matches!(v.handle_key('\n'), SubAction::Nothing));
    assert!(v.message.contains("未初始化"));
    assert!(matches!(v.handle_key('j'), SubAction::Nothing));
    assert_eq!(v.cursor, 1);
    match v.handle_key('\r') {
        SubAction::SwitchTo(p) => assert_eq!(p, "libs/b"),
        _ => panic!("expected a switch"),
    }
    assert!(matches!(v.handle_key('j'), SubAction::Nothing));
    assert_eq!(v.cursor, 1, "no row below the last");
    assert!(matches!(v.handle_key('q'), SubAction::Back));
}

#[test]
fn branch_switch_relists_and_follows_current() {
    let mut v = BranchView::load(vec![branch("dev", false), branch("main", true)]);
    assert_eq!(v.cursor, 1, "cursor starts on the current branch");
    assert!(matches!(v.handle_key('\n'), BranchCmd::Finish(Ok(bv::Action::Nothing))));
    assert_eq!(v.message, "已在分支 main");
    v.handle_key('k');
    match v.handle_key('\n') {
        BranchCmd::Run(BranchOp::Switch(n)) => assert_eq!(n, "dev"),
        _ => panic!("expected a switch"),
    }
    assert!(matches!(v.on_reply(BranchReply::Changed(Ok(()))), BranchCmd::Run(BranchOp::List)));
    assert_eq!(v.message, "已切换到 dev");
    let cmd = v.on_reply(BranchReply::Listed(Ok(vec![branch("dev", true), branch("main", false)])));
    assert!(matches!(cmd, BranchCmd::Finish(Ok(bv::Action::BranchesChanged))));
    assert_eq!(v.cursor, 0);
}

#[test]
fn branch_switch_failure_is_a_message() {
    let mut v = BranchView::load(vec![branch("dev", false), branch("main", true)]);
    v.handle_key('k');
    v.handle_key('\n');
    let cmd = v.on_reply(BranchReply::Changed(Err(Error::Precondition("dirty".into()))));
    assert!(matches!(cmd, BranchCmd::Finish(Ok(bv::Action::Nothing))));
    assert_eq!(v.message, "切换失败: 预检未通过: dirty");
}

#[test]
fn branch_create_types_a_name() {
    let mut v = BranchView::load(vec![branch("main", true)]);
    v.handle_key('c');
    assert_eq!(v.mode, bv::Mode::CreateInput);
    v.handle_key('\n');
    assert_eq!(v.message, "分支名不能为空");
    for c in "fx".chars() {
        v.handle_key(c);
    }
    v.handle_key('\x7f');
    v.handle_key('y');
    v.handle_key(gitcore::ui::UP);
    match v.handle_key('\n') {
        BranchCmd::Run(BranchOp::Create(n)) => assert_eq!(n, "fy"),
        _ => panic!("expected a create"),
    }
    assert!(matches!(v.on_reply(BranchReply::Changed(Ok(()))), BranchCmd::Run(BranchOp::List)));
    assert_eq!(v.mode, bv::Mode::List);
    v.on_reply(BranchReply::Listed(Ok(vec![branch("fy", false), branch("main", true)])));
    assert_eq!(v.cursor, 0, "cursor on the new branch");
}

#[test]
fn branch_delete_needs_confirmation_and_not_current() {
    let mut v = BranchView::load(vec![branch("a", false), branch("main", true)]);
    v.handle_key('j');
    v.handle_key('d');
    assert_eq!(v.message, "不能删除当前分支");
    v.handle_key('k');
    v.handle_key('d');
    assert_eq!(v.mode, bv::Mode::DeleteConfirm);
    v.handle_key('n');
    assert_eq!(v.message, "已取消删除");
    v.handle_key('d');
    match v.handle_key('y') {
        BranchCmd::Run(BranchOp::Delete(n)) => assert_eq!(n, "a"),
        _ => panic!("expected a delete"),
    }
    v.cursor = 1;
    v.on_reply(BranchReply::Changed(Ok(())));
    let cmd = v.on_reply(BranchReply::Listed(Ok(vec![branch("main", true)])));
    assert!(matches!(cmd, BranchCmd::Finish(Ok(bv::Action::BranchesChanged))));
    assert_eq!(v.cursor, 0, "cursor kept on the list");
}

fn entry(r: &str) -> StashEntry {
    StashEntry { reff: r.into(), message: "m".into(), branch: "main".into() }
}

#[test]
fn stash_pop_conflict_keeps_list() {
    let mut v = StashView::load(vec![entry("stash@{0}")]);
    match v.handle_key('P') {
        StashCmd::Run(StashOp::Pop(r)) => assert_eq!(r, "stash@{0}"),
        _ => panic!("expected a pop"),
    }
    let cmd = v.on_reply(StashReply::Popped(Ok(PopResult::Conflict(vec!["a".into(), "b".into()]))));
    assert!(matches!(cmd, StashCmd::Finish(Ok(tv::Action::Nothing))));
    assert_eq!(v.message, "弹出冲突,2 个文件需处理");
    assert_eq!(v.stashes.len(), 1);
}

#[test]
fn stash_create_with_blank_message_has_none() {
    let mut v = StashView::load(vec![]);
    assert!(matches!(v.handle_key('j'), StashCmd::Finish(Ok(tv::Action::Nothing))));
    v.handle_key('c');
    v.handle_key(' ');
    match v.handle_key('\n') {
        StashCmd::Run(StashOp::Push(m)) => assert_eq!(m, None),
        _ => panic!("expected a push"),
    }
    assert!(matches!(v.on_reply(StashReply::Changed(Ok(()))), StashCmd::Run(StashOp::List)));
    let cmd = v.on_reply(StashReply::Listed(Ok(vec![entry("stash@{0}")])));
    assert!(matches!(cmd, StashCmd::Finish(Ok(tv::Action::StashChanged))));
    assert_eq!(v.message, "已创建 stash");
}

#[test]
fn stash_drop_relist_error_propagates() {
    let mut v = StashView::load(vec![entry("stash@{0}"), entry("stash@{1}")]);
    v.handle_key('j');
    v.handle_key('d');
    assert_eq!(v.message, "确认丢弃 stash@{1}?(y 确认 / 其他取消)");
    v.handle_key('Y');
    v.on_reply(StashReply::Changed(Ok(())));
    assert_eq!(v.message, "已丢弃 stash@{1}");
    assert!(matches!(v.on_reply(StashReply::Listed(Err(Error::Cancelled))), StashCmd::Finish(Err(Error::Cancelled))));
}

fn fs(path: &str, state: FileState) -> FileStatus {
    FileStatus { path: path.into(), state }
}

#[test]
fn stage_space_on_directory_stages_its_files() {
    let mut v = StageView::load(vec![fs("src/a.rs", FileState::Modified), fs("src/b.rs", FileState::Staged), fs("z", FileState::Untracked)]);
    match v.handle_key(' ') {
        StageCmd::Run(StageOp::Stage(p)) => assert_eq!(p, vec!["src/a.rs".to_string(), "src/b.rs".to_string()]),
        _ => panic!("expected a stage"),
    }
    assert!(matches!(v.on_reply(StageReply::Changed(Ok(()))), StageCmd::Run(StageOp::Status)));
    assert_eq!(v.message, "已暂存 src/ (2 个文件)");
    let cmd = v.on_reply(StageReply::Files(Ok(vec![fs("src/a.rs", FileState::Staged), fs("src/b.rs", FileState::Staged)])));
    assert!(matches!(cmd, StageCmd::Finish(Ok(sv::Action::Nothing))));
    match v.handle_key(' ') {
        StageCmd::Run(StageOp::Unstage(p)) => assert_eq!(p.len(), 2),
        _ => panic!("all staged: expected an unstage"),
    }
}

#[test]
fn stage_collapse_and_expand_directory() {
    let mut v = StageView::load(vec![fs("src/a.rs", FileState::Modified), fs("src/b.rs", FileState::Modified)]);
    assert_eq!(v.rows.len(), 3);
    v.handle_key('h');
    assert_eq!(v.rows.len(), 1);
    assert!(!v.rows[0].expanded);
    v.handle_key('l');
    assert_eq!(v.rows.len(), 3);
    v.handle_key('\n');
    assert_eq!(v.rows.len(), 1);
    v.handle_key('\n');
    assert_eq!(v.rows.len(), 3);
    assert!(v.collapsed.is_empty());
}

#[test]
fn stage_discard_asks_then_reports() {
    let mut v = StageView::load(vec![fs("a.txt", FileState::Modified)]);
    v.handle_key('d');
    assert_eq!(v.mode, sv::Mode::ConfirmDiscard);
    assert_eq!(v.message, "确认回滚 文件 a.txt?改动将 stash 兜底,可 pop 找回 [y/n]");
    match v.handle_key('y') {
        StageCmd::Run(StageOp::Discard(p)) => assert_eq!(p, vec!["a.txt".to_string()]),
        _ => panic!("expected a discard"),
    }
    v.on_reply(StageReply::Changed(Ok(())));
    assert_eq!(v.message, "已回滚 1 项(改动已 stash 兜底,可在 Stash 视图 pop 找回)");
    v.on_reply(StageReply::Files(Ok(vec![])));
    assert_eq!(v.mode, sv::Mode::FileList);
    assert!(v.rows.is_empty());
    assert_eq!(v.cursor, 0);
}

#[test]
fn stage_commit_message_flow() {
    let mut v = StageView::load(vec![fs("a", FileState::Staged)]);
    v.handle_key('c');
    v.handle_key('\r');
    assert_eq!(v.message, "提交消息不能为空");
    for c in "fix".chars() {
        v.handle_key(c);
    }
    match v.handle_key('\n') {
        StageCmd::Run(StageOp::Commit(m)) => assert_eq!(m, "fix"),
        _ => panic!("expected a commit"),
    }
    match v.on_reply(StageReply::Committed(Ok("abc1234".into()))) {
        StageCmd::Finish(Ok(sv::Action::Commit(sha))) => assert_eq!(sha, "abc1234"),
        _ => panic!("expected the commit action"),
    }
}

fn row(graph: &str, sha: Option<&str>) -> GraphRow {
    GraphRow {
        graph: graph.into(),
        entry: sha.map(|s| LogEntry { sha: s.into(), full_sha: format!("{s}000"), message: "m".into(), author: "a".into(), date: "d".into() }),
    }
}

fn sample_file() -> FileDiff {
    FileDiff {
        path: "a.txt".into(),
        binary: false,
        hunks: vec![Hunk {
            old_start: 1,
            new_start: 1,
            heading: "fn main".into(),
            lines: vec![
                DiffLine { kind: LineKind::Context, content: "x".into() },
                DiffLine { kind: LineKind::Removed, content: "y".into() },
                DiffLine { kind: LineKind::Added, content: "z".into() },
            ],
            raw: String::new(),
        }],
        header_raw: String::new(),
    }
}

#[test]
fn log_cursor_skips_graph_only_rows_and_opens_details() {
    let mut v = LogView::load(vec![row("|", None), row("*", Some("aaa")), row("|\\", None), row("*", Some("bbb"))]);
    assert_eq!(v.cursor, 1);
    v.handle_key('j');
    assert_eq!(v.cursor, 3);
    v.handle_key('j');
    assert_eq!(v.cursor, 3);
    v.handle_key('k');
    assert_eq!(v.cursor, 1);
    match v.handle_key('\n') {
        LogCmd::Run(LogOp::CommitMessage(s)) => assert_eq!(s, "aaa"),
        _ => panic!("expected the message"),
    }
    assert!(matches!(v.on_reply(LogReply::Message(Err(Error::Cancelled))), LogCmd::Run(LogOp::CommitFiles(_))));
    v.on_reply(LogReply::Files(Ok(vec![sample_file()])));
    match &v.mode {
        lv::Mode::Detail(d) => {
            assert_eq!(d.message_text, "");
            assert!(d.rows.is_empty());
        },
        _ => panic!("expected the details"),
    }
    v.handle_key('j');
    match &v.mode {
        lv::Mode::Detail(d) => {
            let texts: Vec<&str> = d.rows.iter().map(|r| r.text.as_str()).collect();
            assert_eq!(texts, vec!["@@ -1 +1 @@ fn main", " x", "-y", "+z"]);
        },
        _ => panic!("expected the details"),
    }
    v.handle_key('q');
    assert!(matches!(v.mode, lv::Mode::List));
}

#[test]
fn detail_rows_of_message_and_binary_file() {
    let rows = lv::build_detail_rows(0, "title\n\nbody\n", &vec![]);
    let texts: Vec<&str> = rows.iter().map(|r| r.text.as_str()).collect();
    assert_eq!(texts, vec!["title", "", "body"]);
    let mut f = sample_file();
    f.binary = true;
    let rows = lv::build_detail_rows(1, "", &vec![f]);
    assert_eq!(rows.len(), 1);
    assert_eq!(rows[0].text, "(二进制文件)");
    assert!(lv::build_detail_rows(2, "", &vec![]).is_empty());
}

#[test]
fn diff_pick_lines_then_stage_them() {
    let mut v = DiffView::load(vec![sample_file()]);
    assert_eq!(v.rows.len(), 4);
    assert_eq!(v.message, "未暂存 · j/k 选文件 · l/Enter 进 diff · Space 暂存整文件 · t 切暂存区 · q 返回");
    v.handle_key('l');
    assert_eq!(v.focus, dv::Focus::Diff);
    v.handle_key('s');
    assert_eq!(v.message, "未选中行(在 +/- 行上按 Space 选择,再按 s)");
    v.handle_key('j');
    v.handle_key('j');
    v.handle_key(' ');
    v.handle_key('j');
    v.handle_key(' ');
    assert_eq!(v.message, "已选 2 行 · s 暂存选中行 · Space 继续选/取消选");
    match v.handle_key('s') {
        DiffCmd::Run(DiffOp::StageLines(f, h, l)) => {
            assert_eq!((f, h), (0, 0));
            assert_eq!(l, vec![1, 2]);
        },
        _ => panic!("expected staged lines"),
    }
    assert!(matches!(v.on_reply(DiffReply::Changed(Ok(()))), DiffCmd::Run(DiffOp::Diff(false))));
    v.on_reply(DiffReply::Diffs(Ok(vec![])));
    assert_eq!(v.message, "已暂存 2 行");
    assert_eq!(v.focus, dv::Focus::Files);
    assert!(v.selected.is_empty());
}

#[test]
fn diff_header_applies_hunk_and_t_switches_side() {
    let mut v = DiffView::load(vec![sample_file()]);
    v.handle_key('\n');
    match v.handle_key(' ') {
        DiffCmd::Run(DiffOp::StageHunk(0, 0)) => {},
        _ => panic!("expected a hunk"),
    }
    v.on_reply(DiffReply::Changed(Ok(())));
    v.on_reply(DiffReply::Diffs(Ok(vec![sample_file()])));
    assert_eq!(v.message, "已暂存 a.txt 的一个 hunk");
    assert!(matches!(v.handle_key('t'), DiffCmd::Run(DiffOp::Diff(true))));
    v.on_reply(DiffReply::Diffs(Ok(vec![sample_file()])));
    assert!(v.staged);
    assert!(v.message.starts_with("已暂存 · j/k 选文件"));
}

fn conflict_file() -> Vec<Segment> {
    vec![
        Segment::Clean("a\n".into()),
        Segment::Conflict(ConflictHunk { ours: "b\n".into(), base: "b\n".into(), theirs: "t\n".into() }),
        Segment::Conflict(ConflictHunk { ours: "x\n".into(), base: "b\n".into(), theirs: "y\n".into() }),
    ]
}

#[test]
fn conflict_view_prefills_and_writes_back() {
    let mut v = ConflictView::load(
        vec![("clean.txt".into(), vec![Segment::Clean("c\n".into())]), ("f.txt".into(), conflict_file())],
        Some(StashRef { label: "L".into() }),
    );
    assert_eq!(v.idx, 1, "focus on the first file with blocks");
    assert_eq!(v.files[1].hunks, vec![1, 2]);
    assert_eq!(v.files[1].choices, vec![Choice::Theirs, Choice::Ours], "the magic wand decides a one-sided block");
    v.handle_key('j');
    v.handle_key('t');
    assert_eq!(v.files[1].choices, vec![Choice::Theirs, Choice::Theirs]);
    match v.handle_key('w') {
        ConflictCmd::Run(ConflictOp::ResolveFile(p, t)) => {
            assert_eq!(p, "f.txt");
            assert_eq!(t, "a\nt\ny\n");
        },
        _ => panic!("expected a write"),
    }
    v.on_reply(ConflictReply::Written(Ok(())));
    assert!(v.files[1].written);
    assert_eq!(v.idx, 0);
    assert_eq!(v.message, "已写回;转到待处理文件 1/2");
    match v.handle_key('c') {
        ConflictCmd::Finish(Ok(cv::Action::Continue(Some(st)))) => assert_eq!(st.label, "L"),
        _ => panic!("expected continue with the stash"),
    }
    assert!(v.autostash.is_none());
}

#[test]
fn conflict_view_navigation_stops_at_ends() {
    let mut v = ConflictView::load(vec![("a".into(), conflict_file()), ("b".into(), conflict_file())], None);
    v.handle_key('p');
    assert_eq!(v.idx, 0, "p at the start stays");
    v.handle_key('n');
    v.handle_key('n');
    assert_eq!(v.idx, 1, "n at the end stays");
    v.handle_key('j');
    v.handle_key('b');
    v.handle_key('p');
    v.handle_key('n');
    assert_eq!(v.files[1].choices, vec![Choice::Theirs, Choice::Base], "choices kept when switching files");
    assert!(matches!(v.handle_key('x'), ConflictCmd::Finish(Ok(cv::Action::Abort(None)))));
}

#[test]
fn clipboard_tries_programs_in_order() {
    assert_eq!(candidates("macos").len(), 1);
    assert_eq!(candidates("linux")[1].1, vec!["-selection".to_string(), "clipboard".to_string()]);
    match copy("linux", "hi", &[]) {
        Step::Ask(Request::RunProgram(p, _, t)) => {
            assert_eq!(p, "wl-copy");
            assert_eq!(t, "hi");
        },
        _ => panic!("expected the first program"),
    }
    match copy("linux", "hi", &[Reply::Failed("no".into())]) {
        Step::Ask(Request::RunProgram(p, a, _)) => {
            assert_eq!(p, "xclip");
            assert_eq!(a.len(), 2);
        },
        _ => panic!("expected the second program"),
    }
    assert!(matches!(copy("linux", "hi", &[Reply::Bool(false), Reply::Bool(true)]), Step::Done(Ok(true))));
    assert!(matches!(copy("windows", "hi", &[Reply::Bool(false)]), Step::Done(Ok(false))));
}

#[test]
fn diff_marks_only_picked_lines_of_the_active_hunk() {
    let mut v = DiffView::load(vec![sample_file()]);
    v.handle_key('l');
    v.handle_key('j');
    v.handle_key('j');
    v.handle_key(' ');
    let marks: Vec<bool> = v.rows.iter().map(|r| v.is_selected(r)).collect();
    assert_eq!(marks, vec![false, false, true, false], "the header is never marked");
    v.active_hunk = Some(5);
    assert!(v.rows.iter().all(|r| !v.is_selected(r)), "lines of another hunk are not marked");
}

#[test]
fn diff_empty_states_and_title() {
    let v = DiffView::load(vec![]);
    assert_eq!(v.files_placeholder().as_deref(), Some("(无未暂存改动)"));
    assert_eq!(v.diff_placeholder().as_deref(), Some("(无改动)"));
    assert_eq!(v.title(), " Diff 视图 · 未暂存改动(工作区 vs 暂存区)");
    let mut f = sample_file();
    f.binary = true;
    f.hunks.clear();
    let b = DiffView::load(vec![f]);
    assert_eq!(b.files_placeholder(), None);
    assert_eq!(b.diff_placeholder().as_deref(), Some("(二进制文件)"));
    let full = DiffView::load(vec![sample_file()]);
    assert_eq!(full.diff_placeholder(), None);
}
