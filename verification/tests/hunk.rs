use gitcore::hunk::{parse, partial_patch, patch_of, untracked_diff, LineKind};

#[test]
fn parses_single_file_single_hunk() {
    let sample = "\
diff --git a/foo.txt b/foo.txt
index e69de29..d95f3ad 100644
--- a/foo.txt
+++ b/foo.txt
@@ -1,2 +1,3 @@ fn main
 line1
-old
+new
+added
";
    let files = parse(sample);
    assert_eq!(files.len(), 1);
    let f = &files[0];
    assert_eq!(f.path, "foo.txt");
    assert!(!f.binary);
    assert_eq!(f.hunks.len(), 1);

    let h = &f.hunks[0];
    assert_eq!(h.old_start, 1);
    assert_eq!(h.new_start, 1);
    assert_eq!(h.heading, "fn main");
    assert_eq!(h.lines.len(), 4);
    assert_eq!(h.lines[0].kind, LineKind::Context);
    assert_eq!(h.lines[0].content, "line1");
    assert_eq!(h.lines[1].kind, LineKind::Removed);
    assert_eq!(h.lines[1].content, "old");
    assert_eq!(h.lines[2].kind, LineKind::Added);
    assert_eq!(h.lines[2].content, "new");
    assert_eq!(h.lines[3].content, "added");
}

#[test]
fn parses_multiple_hunks_and_files() {
    let text = "\
diff --git a/a.txt b/a.txt
--- a/a.txt
+++ b/a.txt
@@ -1 +1 @@
-a
+b
@@ -10 +10 @@
-c
+d
diff --git a/b.txt b/b.txt
--- a/b.txt
+++ b/b.txt
@@ -1 +1 @@
-x
+y
";
    let files = parse(text);
    assert_eq!(files.len(), 2);
    assert_eq!(files[0].path, "a.txt");
    assert_eq!(files[0].hunks.len(), 2);
    assert_eq!(files[1].path, "b.txt");
    assert_eq!(files[1].hunks.len(), 1);
}

#[test]
fn detects_binary_file() {
    let text = "\
diff --git a/img.png b/img.png
index abc..def 100644
Binary files a/img.png and b/img.png differ
";
    let files = parse(text);
    assert_eq!(files.len(), 1);
    assert!(files[0].binary);
    assert!(files[0].hunks.is_empty());
}

#[test]
fn parses_new_file_path_from_dev_null() {
    let text = "\
diff --git a/new.txt b/new.txt
new file mode 100644
index 0000000..abc
--- /dev/null
+++ b/new.txt
@@ -0,0 +1 @@
+hello
";
    let files = parse(text);
    assert_eq!(files.len(), 1);
    assert_eq!(files[0].path, "new.txt");
    assert_eq!(files[0].hunks.len(), 1);
    assert_eq!(files[0].hunks[0].lines[0].kind, LineKind::Added);
}

const TWO_CHANGES: &str = "\
diff --git a/f.txt b/f.txt
--- a/f.txt
+++ b/f.txt
@@ -1,3 +1,3 @@
 keep
-old1
-old2
+new1
+new2
";

#[test]
fn hunk_patch_is_header_plus_hunk() {
    let files = parse(TWO_CHANGES);
    let p = patch_of(&files[0], &files[0].hunks[0]);
    assert_eq!(p, TWO_CHANGES);
}

#[test]
fn partial_patch_keeps_only_selected_lines() {
    let files = parse(TWO_CHANGES);
    let f = &files[0];
    let h = &f.hunks[0];
    // select "-old1" (1) and "+new1" (3): the unselected removal stays as context,
    // the unselected addition is left out.
    let p = partial_patch(f, h, &[1, 3]);
    assert_eq!(
        p,
        "diff --git a/f.txt b/f.txt\n--- a/f.txt\n+++ b/f.txt\n@@ -1,3 +1,3 @@\n keep\n-old1\n old2\n+new1\n"
    );
}

#[test]
fn untracked_text_file_is_wholly_added() {
    let fd = untracked_diff("n.txt", b"a\nb");
    assert!(!fd.binary);
    assert_eq!(fd.hunks.len(), 1);
    assert_eq!(fd.hunks[0].lines.len(), 2);
    assert_eq!(fd.hunks[0].new_start, 1);
    assert_eq!(
        fd.header_raw,
        "diff --git a/n.txt b/n.txt\nnew file mode 100644\n--- /dev/null\n+++ b/n.txt\n"
    );
}

#[test]
fn untracked_binary_file_has_no_hunks() {
    let fd = untracked_diff("b.bin", &[1, 0, 2]);
    assert!(fd.binary);
    assert!(fd.hunks.is_empty());
}

#[test]
fn untracked_invalid_utf8_is_read_lossily() {
    let fd = untracked_diff("x.txt", &[0x66, 0xff, 0x0a]);
    assert_eq!(fd.hunks[0].lines[0].content, "f\u{fffd}");
}
