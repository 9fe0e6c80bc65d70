use gitcore::status::{FileState, FileStatus};
use gitcore::ui::stage::rows_of;

fn fs(path: &str, state: FileState) -> FileStatus {
    FileStatus { path: path.to_string(), state }
}

#[test]
fn tree_groups_files_under_directory() {
    let files = vec![
        fs("src/a.rs", FileState::Modified),
        fs("src/b.rs", FileState::Staged),
        fs("README.md", FileState::Untracked),
    ];
    let rows = rows_of(&files, &[]);
    // 目录在前:src/(d0) → a.rs(d1) → b.rs(d1) → README.md(d0 文件)
    assert_eq!(rows.len(), 4);
    assert!(rows[0].is_dir && rows[0].name == "src" && rows[0].depth == 0);
    assert_eq!((rows[1].name.as_str(), rows[1].depth), ("a.rs", 1));
    assert_eq!((rows[2].name.as_str(), rows[2].depth), ("b.rs", 1));
    assert!(!rows[3].is_dir && rows[3].name == "README.md" && rows[3].depth == 0);
}

#[test]
fn stage_ui_collapsed_dir_hides_children() {
    let files = vec![
        fs("src/a.rs", FileState::Modified),
        fs("src/b.rs", FileState::Staged),
    ];
    let collapsed = vec!["src".to_string()];
    let rows = rows_of(&files, &collapsed);
    assert_eq!(rows.len(), 1, "折叠后只剩目录行");
    assert!(rows[0].is_dir && !rows[0].expanded);
}

#[test]
fn nested_directories_nest_depth() {
    let files = vec![fs("a/b/c.rs", FileState::Modified)];
    let rows = rows_of(&files, &[]);
    assert_eq!(rows.len(), 3);
    assert_eq!(rows[0].name, "a");
    assert_eq!(rows[1].name, "b");
    assert_eq!((rows[2].name.as_str(), rows[2].depth), ("c.rs", 2));
}

#[test]
fn file_rows_carry_their_state() {
    let files = vec![fs("src/a.rs", FileState::Modified), fs("b.txt", FileState::StagedAndModified)];
    let rows = rows_of(&files, &[]);
    assert_eq!(rows.len(), 3);
    assert_eq!(rows[0].state, None);
    assert_eq!(rows[1].state, Some(FileState::Modified));
    assert_eq!(rows[2].state, Some(FileState::StagedAndModified));
}
