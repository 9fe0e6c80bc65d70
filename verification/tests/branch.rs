use gitcore::branch::{is_checkout_blocked_by_local_changes, local_name_from_remote, parse_branches, parse_remote_branches, parse_track};

#[test]
fn parse_track_ahead_and_behind() {
    assert_eq!(parse_track(""), (0, 0));
    assert_eq!(parse_track("ahead 3"), (3, 0));
    assert_eq!(parse_track("behind 5"), (0, 5));
    assert_eq!(parse_track("ahead 1, behind 2"), (1, 2));
}

#[test]
fn local_name_strips_remote_prefix() {
    assert_eq!(local_name_from_remote("origin/feat").as_deref(), Some("feat"));
    assert_eq!(local_name_from_remote("origin/feature/x").as_deref(), Some("feature/x"));
    assert_eq!(local_name_from_remote("upstream/main").as_deref(), Some("main"));
    assert_eq!(local_name_from_remote("origin"), None);
    assert_eq!(local_name_from_remote("origin/"), None);
}

#[test]
fn detects_checkout_blocked_by_local_changes() {
    let en = "error: Your local changes to the following files would be overwritten by checkout:\n\ta.txt\nPlease commit your changes or stash them before you switch branches.\nAborting\n";
    assert!(is_checkout_blocked_by_local_changes(en));
    let zh = "error: 您对下列文件的本地修改将被检出操作覆盖:\n\ta.txt\n请在切换分支前提交或贮藏您的修改。\n正在终止\n";
    assert!(is_checkout_blocked_by_local_changes(zh));
    let other = "error: pathspec 'nope' did not match any file(s) known to git";
    assert!(!is_checkout_blocked_by_local_changes(other));
}

#[test]
fn branch_listing_reads_track_and_current() {
    let out = "main\0origin/main\0ahead 1, behind 2\0*\nfeat\0\0\0 \n\nshort\0x\n";
    let bs = parse_branches(out);
    assert_eq!(bs.len(), 2);
    assert_eq!(bs[0].name, "main");
    assert!(bs[0].is_current);
    assert_eq!(bs[0].upstream.as_deref(), Some("origin/main"));
    assert_eq!((bs[0].ahead, bs[0].behind), (1, 2));
    assert_eq!(bs[1].name, "feat");
    assert!(!bs[1].is_current);
    assert_eq!(bs[1].upstream, None);
}

#[test]
fn remote_listing_skips_symbolic_head() {
    let bs = parse_remote_branches("origin/HEAD\n origin/main \norigin/dev\n\n");
    let names: Vec<&str> = bs.iter().map(|b| b.name.as_str()).collect();
    assert_eq!(names, vec!["origin/main", "origin/dev"]);
    assert!(bs.iter().all(|b| b.is_remote));
}
