use gitcore::filetree::{build_rows, RowKind};

#[test]
fn groups_by_directory_with_indices() {
    let paths = vec!["src/a.rs".to_string(), "src/b.rs".to_string(), "README.md".to_string()];
    let rows = build_rows(&paths, &[]);
    assert_eq!(rows.len(), 4);
    assert!(matches!(rows[0].kind, RowKind::Dir { .. }) && rows[0].name == "src");
    assert!(matches!(rows[1].kind, RowKind::File { index: 0 }) && rows[1].depth == 1);
    assert!(matches!(rows[2].kind, RowKind::File { index: 1 }));
    assert!(matches!(rows[3].kind, RowKind::File { index: 2 }) && rows[3].depth == 0);
}

#[test]
fn filetree_collapsed_dir_hides_children() {
    let paths = vec!["src/a.rs".to_string(), "src/b.rs".to_string()];
    let collapsed = vec!["src".to_string()];
    let rows = build_rows(&paths, &collapsed);
    assert_eq!(rows.len(), 1, "折叠后只剩目录行");
    assert!(matches!(rows[0].kind, RowKind::Dir { expanded: false }));
}

#[test]
fn nested_dirs_increase_depth() {
    let paths = vec!["a/b/c.rs".to_string()];
    let rows = build_rows(&paths, &[]);
    assert_eq!(rows.len(), 3);
    assert_eq!((rows[2].name.as_str(), rows[2].depth), ("c.rs", 2));
    assert!(matches!(rows[2].kind, RowKind::File { index: 0 }));
}

#[test]
fn directories_sort_before_files_and_by_name() {
    let paths = vec!["z.txt".to_string(), "b/x".to_string(), "a/y".to_string(), "a".to_string()];
    let rows = build_rows(&paths, &[]);
    let listed: Vec<(&str, usize)> = rows.iter().map(|r| (r.path.as_str(), r.depth)).collect();
    assert_eq!(listed, vec![("a", 0), ("a/y", 1), ("b", 0), ("b/x", 1), ("a", 0), ("z.txt", 0)]);
    assert!(matches!(rows[4].kind, RowKind::File { index: 3 }));
}

#[test]
fn empty_components_are_dropped() {
    let paths = vec!["//x//y/".to_string(), "".to_string(), "/".to_string()];
    let rows = build_rows(&paths, &[]);
    assert_eq!(rows.len(), 2);
    assert_eq!(rows[1].path, "x/y");
    assert!(matches!(rows[1].kind, RowKind::File { index: 0 }));
}

#[test]
fn nested_collapse_keeps_outer_rows() {
    let paths = vec!["a/b/c".to_string(), "a/d".to_string()];
    let rows = build_rows(&paths, &["a/b".to_string()]);
    let listed: Vec<&str> = rows.iter().map(|r| r.path.as_str()).collect();
    assert_eq!(listed, vec!["a", "a/b", "a/d"]);
    assert!(matches!(rows[1].kind, RowKind::Dir { expanded: false }));
}
