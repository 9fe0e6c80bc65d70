use gitcore::rebase::{compile_todo, RebaseAction, RebaseItem};

fn items(v: &[(&str, RebaseAction)]) -> Vec<RebaseItem> {
    v.iter().map(|(sha, a)| RebaseItem { sha: (*sha).to_string(), action: a.clone() }).collect()
}

#[test]
fn compile_pick_drop_reword() {
    let (todo, msgs) = compile_todo(
        &items(&[("aaa", RebaseAction::Pick), ("bbb", RebaseAction::Reword("new b".into())), ("ccc", RebaseAction::Drop)]),
        "/tmp/msgs",
    )
    .unwrap();
    assert_eq!(todo, "pick aaa\npick bbb\nexec git commit --amend -F '/tmp/msgs/msg-0'\n");
    assert_eq!(msgs.len(), 1);
    assert_eq!(msgs[0].1, "new b");
}

#[test]
fn compile_squash_folds_with_fixup_then_amend() {
    let (todo, msgs) = compile_todo(
        &items(&[("aaa", RebaseAction::Pick), ("bbb", RebaseAction::Squash("combined".into()))]),
        "/tmp/msgs",
    )
    .unwrap();
    assert_eq!(todo, "pick aaa\nfixup bbb\nexec git commit --amend -F '/tmp/msgs/msg-0'\n");
    assert_eq!(msgs[0].1, "combined");
}

#[test]
fn first_fixup_without_target_errors() {
    assert!(compile_todo(&items(&[("aaa", RebaseAction::Fixup)]), "/tmp/msgs").is_err());
    assert!(compile_todo(&items(&[("aaa", RebaseAction::Squash("x".into()))]), "/tmp/msgs").is_err());
}

#[test]
fn dropping_all_errors() {
    assert!(compile_todo(&items(&[("aaa", RebaseAction::Drop), ("bbb", RebaseAction::Drop)]), "/tmp/msgs").is_err());
}

#[test]
fn empty_reword_message_errors() {
    assert!(compile_todo(&items(&[("aaa", RebaseAction::Reword("  ".into()))]), "/tmp/msgs").is_err());
}

#[test]
fn message_files_are_numbered_in_order() {
    let (todo, msgs) = compile_todo(
        &items(&[("a", RebaseAction::Reword("one".into())), ("b", RebaseAction::Fixup), ("c", RebaseAction::Reword("two".into()))]),
        "/d/",
    )
    .unwrap();
    assert_eq!(msgs[0].0, "/d/msg-0");
    assert_eq!(msgs[1].0, "/d/msg-1");
    assert_eq!(
        todo,
        "pick a\nexec git commit --amend -F '/d/msg-0'\nfixup b\npick c\nexec git commit --amend -F '/d/msg-1'\n"
    );
}
