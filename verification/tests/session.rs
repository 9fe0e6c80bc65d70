use gitcore::config::{load_repos, parse_repos_config, RepoConfig};
use gitcore::error::Error;
use gitcore::git::progress_events;
use gitcore::history::ProjectHistory;
use gitcore::push::PushOutcome;
use gitcore::repo::{Reply, Request, Step};
use gitcore::resolve::Segment;
use gitcore::status::RepoStatus;
use gitcore::submodule::{Submodule, SubmoduleStatus};
use gitcore::ui::conflict::{auto_context, auto_lines, file_progress};
use gitcore::ui::session::{status_text, RepoEntry, Running, Screen, Session, SessionCmd, SessionReply, ViewEnd, ViewKind};
use gitcore::update::{IntegrationStrategy, UpdateOutcome};

fn entry(name: &str) -> RepoEntry {
    RepoEntry { name: name.into(), path: format!("/r/{name}"), opened: true, status: None }
}

fn status() -> RepoStatus {
    RepoStatus {
        branch: Some("main".into()),
        upstream: None,
        behind: 2,
        ahead: 1,
        dirty: true,
        conflicted: vec!["a".into()],
        files: vec![],
        submodules: vec![Submodule { name: "lib".into(), path: "lib".into(), status: SubmoduleStatus::Dirty }],
    }
}

#[test]
fn status_text_lists_everything() {
    assert_eq!(
        status_text(&status()),
        "分支:      main\nupstream:  (none)\n领先/落后: +1 / -2\n工作区:    有未提交改动\n冲突文件:  1 个(按 R 恢复解决)\n\n子仓库:    1 个\n  ● lib"
    );
}

#[test]
fn session_starts_by_reading_status() {
    let (mut s, cmd) = Session::new(vec![entry("a"), entry("b")]);
    assert!(matches!(cmd, SessionCmd::ReadStatus));
    assert!(matches!(s.on_reply(SessionReply::Status(Ok(status()))), SessionCmd::Idle));
    assert!(s.repos[0].status.is_some());
    assert_eq!(s.message, "就绪");
    for _ in 0..20 {
        s.handle_key('j');
    }
    assert_eq!(s.status_scroll, 7, "scroll stops at the last line");
    assert!(matches!(s.tab(), SessionCmd::ReadStatus));
    assert_eq!(s.current_index, 1);
    assert_eq!(s.status_scroll, 0);
    s.on_reply(SessionReply::Status(Err(Error::Cancelled)));
    assert_eq!(s.message, "切换到: b");
}

#[test]
fn refused_push_integrates_then_pushes_again() {
    let (mut s, _) = Session::new(vec![entry("a")]);
    s.on_reply(SessionReply::Status(Ok(status())));
    assert!(matches!(s.handle_key('p'), SessionCmd::StartPush));
    assert_eq!(s.running, Some(Running::Push));
    assert!(matches!(s.handle_key('u'), SessionCmd::Idle), "keys wait while a push runs");
    let cmd = s.push_done(Ok(PushOutcome::NonFastForward));
    assert!(matches!(cmd, SessionCmd::StartUpdate(IntegrationStrategy::Merge)));
    assert!(s.push_after_integrate);
    assert_eq!(s.message, "远端领先,正在自动整合…(Esc 取消)");
    let cmd = s.update_done(Ok(UpdateOutcome::FastForwarded { commits: 3 }));
    assert!(matches!(cmd, SessionCmd::ReadStatus));
    let cmd = s.on_reply(SessionReply::Status(Ok(status())));
    assert!(matches!(cmd, SessionCmd::StartPush), "clean integration pushes again");
    let cmd = s.push_done(Ok(PushOutcome::Success));
    assert!(matches!(cmd, SessionCmd::ReadStatus));
    assert_eq!(s.message, "整合后推送成功");
    assert!(!s.push_after_integrate);
}

#[test]
fn conflicting_integration_does_not_push() {
    let (mut s, _) = Session::new(vec![entry("a")]);
    s.on_reply(SessionReply::Status(Ok(status())));
    s.handle_key('p');
    s.push_done(Ok(PushOutcome::NonFastForward));
    let cmd = s.update_done(Ok(UpdateOutcome::Conflicted { files: vec!["x".into()], autostash: None }));
    match cmd {
        SessionCmd::EnterConflict(files, None) => assert_eq!(files, vec!["x".to_string()]),
        _ => panic!("expected the conflict view"),
    }
    assert!(matches!(s.on_reply(SessionReply::Opened(Ok(()))), SessionCmd::Idle));
    assert!(matches!(s.screen, Screen::Conflict));
    assert!(matches!(s.view_ended(ViewEnd::Abort(None)), SessionCmd::AbortUpdate(None)));
    assert!(!s.push_after_integrate);
    assert!(matches!(s.on_reply(SessionReply::Aborted(Ok(()))), SessionCmd::ReadStatus));
    assert_eq!(s.message, "已放弃整合");
}

#[test]
fn esc_cancels_a_running_update() {
    let (mut s, _) = Session::new(vec![entry("a")]);
    s.on_reply(SessionReply::Status(Ok(status())));
    s.handle_key('m');
    assert_eq!(s.message, "整合策略已切换为 rebase");
    assert!(matches!(s.handle_key('u'), SessionCmd::StartUpdate(IntegrationStrategy::Rebase)));
    assert!(matches!(s.handle_key('\x1b'), SessionCmd::Cancel));
    assert_eq!(s.message, "正在取消…");
    s.update_done(Err(Error::Cancelled));
    assert_eq!(s.message, "更新已取消");
    assert_eq!(s.running, None);
}

#[test]
fn views_open_and_report_back() {
    let (mut s, _) = Session::new(vec![entry("a")]);
    s.on_reply(SessionReply::Status(Ok(status())));
    assert!(matches!(s.handle_key('b'), SessionCmd::Open(ViewKind::Branch)));
    s.on_reply(SessionReply::Opened(Ok(())));
    assert!(matches!(s.screen, Screen::View(ViewKind::Branch)));
    assert!(matches!(s.view_ended(ViewEnd::Changed), SessionCmd::ReadStatus));
    assert!(matches!(s.screen, Screen::View(ViewKind::Branch)), "a changed list keeps the view open");
    s.on_reply(SessionReply::Status(Ok(status())));
    s.view_ended(ViewEnd::Failed(Error::Precondition("x".into())));
    assert_eq!(s.message, "操作失败: 预检未通过: x");
    assert!(matches!(s.view_ended(ViewEnd::Back), SessionCmd::ReadStatus));
    assert!(matches!(s.screen, Screen::Status));
    s.on_reply(SessionReply::Status(Ok(status())));
    assert!(matches!(s.handle_key('d'), SessionCmd::ShowDiff));
    s.on_reply(SessionReply::DiffText(Ok("  \n".into())));
    assert_eq!(s.message, "工作区无改动");
    s.handle_key('d');
    s.on_reply(SessionReply::DiffText(Ok("a\nb\nc\n".into())));
    s.handle_key('j');
    s.handle_key('j');
    s.handle_key('j');
    assert!(matches!(&s.screen, Screen::Diff(_, 2)));
    assert!(matches!(s.handle_key('S'), SessionCmd::Idle | SessionCmd::OpenSubmodules));
}

#[test]
fn submodules_screen_needs_submodules() {
    let (mut s, _) = Session::new(vec![entry("a")]);
    let mut st = status();
    st.submodules.clear();
    s.on_reply(SessionReply::Status(Ok(st)));
    assert!(matches!(s.handle_key('S'), SessionCmd::Idle));
    assert_eq!(s.message, "无子仓库");
    s.on_reply(SessionReply::Status(Ok(status())));
    s.handle_key('r');
    s.on_reply(SessionReply::Status(Ok(status())));
    assert_eq!(s.message, "已刷新");
    assert!(matches!(s.handle_key('S'), SessionCmd::OpenSubmodules));
    assert!(matches!(s.screen, Screen::Submodule));
}

#[test]
fn repo_list_puts_main_first_and_dedups_submodules() {
    let configs = vec![RepoConfig { name: "front".into(), path: "../front".into() }];
    let subs = vec![
        Submodule { name: "lib".into(), path: "lib".into(), status: SubmoduleStatus::Clean },
        Submodule { name: "lib2".into(), path: "lib".into(), status: SubmoduleStatus::Clean },
    ];
    let list = load_repos("/w", &configs, &subs);
    assert_eq!(
        list,
        vec![
            ("主仓库".to_string(), "/w".to_string()),
            ("front".to_string(), "/w/../front".to_string()),
            ("lib".to_string(), "/w/lib".to_string()),
        ]
    );
    let configs = vec![RepoConfig { name: "me".into(), path: "/w".into() }];
    assert_eq!(load_repos("/w", &configs, &[]), vec![("me".to_string(), "/w".to_string())]);
}

#[test]
fn repos_config_reads_or_explains() {
    match parse_repos_config("/w/.git-gui/repos.toml", &[]) {
        Step::Ask(Request::ReadFile(p)) => assert_eq!(p, "/w/.git-gui/repos.toml"),
        _ => panic!("expected a read"),
    }
    match parse_repos_config("c", &[Reply::Failed("no such file".into())]) {
        Step::Done(Ok(Err(m))) => assert_eq!(m, "读取配置文件失败: no such file"),
        _ => panic!("expected the message"),
    }
    let text = "[[repos]]\nname = \"a\"\npath = \"x\"\n";
    match parse_repos_config("c", &[Reply::Text(text.into())]) {
        Step::Done(Ok(Ok(v))) => {
            assert_eq!(v.len(), 1);
            assert_eq!((v[0].name.as_str(), v[0].path.as_str()), ("a", "x"));
        }
        _ => panic!("expected the list"),
    }
}

#[test]
fn progress_events_split_on_cr_and_lf() {
    let stderr = "Receiving objects:  10% (1/10)\rReceiving objects: 100% (10/10), done.\nremote: hello\n\nResolving deltas:  50% (1/2)";
    let ev = progress_events(stderr);
    assert_eq!(ev.len(), 3);
    assert_eq!(ev[0].phase, "Receiving objects");
    assert_eq!(ev[0].percent, Some(10));
    assert_eq!(ev[1].percent, Some(100));
    assert_eq!(ev[2].phase, "Resolving deltas");
    assert_eq!(ev[2].percent, Some(50));
    assert!(progress_events("fatal: nope\n").is_empty());
}

#[test]
fn conflict_context_and_auto_lines() {
    let segs = vec![
        Segment::Clean("a\n".into()),
        Segment::AutoResolved("x\ny\n".into()),
        Segment::AutoResolved("z\n".into()),
        Segment::Clean("b\n".into()),
    ];
    let f = file_progress("f".into(), segs);
    assert_eq!(auto_lines(&f), 3);
    let (before, after) = auto_context(&f, 3);
    assert_eq!(before, vec!["x\ny\n".to_string(), "z\n".to_string()]);
    assert!(after.is_empty());
    let (before, after) = auto_context(&f, 0);
    assert!(before.is_empty());
    assert_eq!(after.len(), 2);
}

#[test]
fn recent_projects_move_to_front_and_keep_ten() {
    let mut h = ProjectHistory { last_project: None, recent_projects: (0..10).map(|i| format!("p{i}")).collect() };
    h.add_project("p5".into());
    assert_eq!(h.recent_projects.len(), 10);
    assert_eq!(h.recent_projects[0], "p5");
    assert_eq!(h.recent_projects[1], "p0");
    assert_eq!(h.recent_projects.iter().filter(|p| *p == "p5").count(), 1);
    h.add_project("new".into());
    assert_eq!(h.recent_projects.len(), 10);
    assert_eq!(h.recent_projects[0], "new");
    assert!(!h.recent_projects.contains(&"p9".to_string()), "the oldest drops out");
    assert_eq!(h.last_project.as_deref(), Some("new"));
}
