use gitcore::present::{describe, follow, truncate_diff};
use gitcore::update::{IntegrationStrategy, UpdateOutcome};

#[test]
fn short_diff_not_truncated() {
    let diff = "diff --git a/x b/x\n+hello";
    assert_eq!(truncate_diff(diff, 1000), diff);
}

#[test]
fn long_diff_truncated_with_note() {
    let diff: String = "あ".repeat(50);
    let out = truncate_diff(&diff, 10);
    assert!(out.starts_with(&"あ".repeat(10)));
    assert!(out.contains("diff 已截断"));
}

#[test]
fn truncation_note_names_the_limit() {
    assert_eq!(truncate_diff("abcdef", 3), "abc\n\n…（diff 已截断,仅展示前 3 字符）");
    assert_eq!(truncate_diff("abc", 3), "abc");
}

#[test]
fn follow_keeps_cursor_in_view() {
    assert_eq!(follow(0, 10), 0);
    assert_eq!(follow(9, 10), 0);
    assert_eq!(follow(10, 10), 1);
    assert_eq!(follow(25, 10), 16);
    assert_eq!(follow(5, 0), 0);
    assert_eq!(follow(5, 1), 5);
}

#[test]
fn describe_outcomes() {
    assert_eq!(describe(&UpdateOutcome::AlreadyUpToDate), "已是最新。");
    assert_eq!(describe(&UpdateOutcome::FastForwarded { commits: 3 }), "已快进 3 个提交。");
    assert_eq!(
        describe(&UpdateOutcome::Integrated { commits: 2, strategy: IntegrationStrategy::Rebase }),
        "已整合 2 个提交(Rebase)。"
    );
    assert_eq!(
        describe(&UpdateOutcome::Conflicted { files: vec!["a".into(), "b".into()], autostash: None }),
        "整合冲突,需手动解决 2 个文件。"
    );
    assert_eq!(describe(&UpdateOutcome::Resolved), "冲突已解决,整合完成。");
}
