use gitcore::status::{parse_ab, parse_v2, FileState};

const SAMPLE: &str = "# branch.oid 1111111111111111111111111111111111111111\0\
    # branch.head main\0\
    # branch.upstream origin/main\0\
    # branch.ab +2 -3\0\
    1 M. N... 100644 100644 100644 aaa bbb staged.txt\0\
    1 .M N... 100644 100644 100644 aaa bbb modified.txt\0\
    1 MM N... 100644 100644 100644 aaa bbb both.txt\0\
    1 .M N... 100644 100644 100644 aaa bbb with space.txt\0\
    1 .M N... 100644 100644 100644 aaa bbb has\"quote.txt\0\
    1 .M N... 100644 100644 100644 aaa bbb tab\there.txt\0\
    2 R. N... 100644 100644 100644 aaa bbb R100 new name.txt\0\
    old name.txt\0\
    u UU N... 100644 100644 100644 100644 aaa bbb ccc conflict.txt\0\
    ? untracked.txt\0\
    ! ignored.txt\0";

#[test]
fn parse_v2_header_branch_and_ab() {
    let p = parse_v2(SAMPLE);
    assert_eq!(p.branch.as_deref(), Some("main"));
    assert_eq!(p.upstream.as_deref(), Some("origin/main"));
    assert_eq!(p.ahead, 2);
    assert_eq!(p.behind, 3);
}

#[test]
fn parse_v2_files_and_states() {
    let p = parse_v2(SAMPLE);
    let find = |name: &str| p.files.iter().find(|f| f.path == name).map(|f| f.state);
    assert_eq!(find("staged.txt"), Some(FileState::Staged));
    assert_eq!(find("modified.txt"), Some(FileState::Modified));
    assert_eq!(find("both.txt"), Some(FileState::StagedAndModified));
    assert_eq!(find("with space.txt"), Some(FileState::Modified));
    assert_eq!(find("has\"quote.txt"), Some(FileState::Modified));
    assert_eq!(find("tab\there.txt"), Some(FileState::Modified));
    assert_eq!(find("new name.txt"), Some(FileState::Staged));
    assert!(find("old name.txt").is_none());
    assert_eq!(find("untracked.txt"), Some(FileState::Untracked));
    assert!(find("conflict.txt").is_none());
    assert!(find("ignored.txt").is_none());
}

#[test]
fn parse_v2_conflicted_only_unmerged() {
    let p = parse_v2(SAMPLE);
    assert_eq!(p.conflicted, vec!["conflict.txt".to_string()]);
}

#[test]
fn parse_v2_rename_orig_path_is_consumed() {
    let out = "2 R. N... 100644 100644 100644 aaa bbb R100 renamed.txt\0\
        ? weird name.txt\0\
        1 .M N... 100644 100644 100644 aaa bbb after.txt\0";
    let p = parse_v2(out);
    let names: Vec<&str> = p.files.iter().map(|f| f.path.as_str()).collect();
    assert_eq!(names, vec!["renamed.txt", "after.txt"], "源路径不得被解析成未跟踪文件,其后的记录仍要正常解析");
}

#[test]
fn parse_v2_detached_head() {
    let p = parse_v2("# branch.oid abc\0# branch.head (detached)\0");
    assert_eq!(p.branch, None);
}

#[test]
fn parse_v2_no_upstream_zero_ab() {
    let out = "# branch.oid abc\0# branch.head main\x001 .M N... 100644 100644 100644 aaa bbb f.txt\0";
    let p = parse_v2(out);
    assert_eq!(p.branch.as_deref(), Some("main"));
    assert_eq!(p.upstream, None);
    assert_eq!(p.ahead, 0);
    assert_eq!(p.behind, 0);
}

#[test]
fn parse_ab_extracts_ahead_behind() {
    assert_eq!(parse_ab("+5 -0"), (5, 0));
    assert_eq!(parse_ab("+0 -7"), (0, 7));
    assert_eq!(parse_ab("+12 -34"), (12, 34));
}

#[test]
fn parse_v2_empty_output_is_clean() {
    let p = parse_v2("");
    assert_eq!(p.branch, None);
    assert!(p.files.is_empty());
    assert!(p.conflicted.is_empty());
}
