use gitcore::hunk::{DiffLine, FileDiff, Hunk, LineKind};
use gitcore::precommit::{classify_added_line, contains_word, has_secret, is_env_file, precommit_warnings, WarningKind, LARGE_FILE_BYTES};

#[test]
fn secret_password_assignment() {
    assert!(has_secret("const password = \"abc\"", "password"));
    assert!(has_secret("  PASSWORD: xyz", "password"));
}

#[test]
fn secret_needs_assign_and_value() {
    assert!(!has_secret("const password = \"\"", "password"));
    assert!(!has_secret("password policy", "password"));
}

#[test]
fn secret_word_boundary() {
    assert!(!has_secret("const mypassword = \"x\"", "password"));
    assert!(has_secret("api_key=sk-xxx", "api_key"));
}

#[test]
fn todo_word_boundary() {
    assert!(contains_word("// TODO: fix later", "todo"));
    assert!(contains_word("# FIXME here", "fixme"));
    assert!(!contains_word("// hacking around", "hack"));
    assert!(!contains_word("syntax error", "xxx"));
}

#[test]
fn env_file_detection() {
    assert!(is_env_file(".env"));
    assert!(is_env_file(".env.local"));
    assert!(is_env_file(".env.production"));
    assert!(is_env_file("config/.env"));
    assert!(!is_env_file("environment.ts"));
    assert!(!is_env_file("env.js"));
    assert!(!is_env_file("src/main.rs"));
}

fn kinds(c: &str) -> Vec<WarningKind> {
    classify_added_line(c).into_iter().map(|(k, _)| k).collect()
}

#[test]
fn classify_conflict_markers() {
    assert!(kinds("<<<<<<< HEAD").contains(&WarningKind::ConflictMarker));
    assert!(kinds("=======").contains(&WarningKind::ConflictMarker));
    assert!(kinds(">>>>>>> feature/x").contains(&WarningKind::ConflictMarker));
}

#[test]
fn classify_debug_residue() {
    assert!(classify_added_line("console.log('hi')").iter().any(|(k, _)| *k == WarningKind::DebugResidue));
    assert!(classify_added_line("  debugger;").iter().any(|(k, _)| *k == WarningKind::DebugResidue));
    assert!(classify_added_line("println!(\"{:?}\", x)").iter().any(|(k, _)| *k == WarningKind::DebugResidue));
}

#[test]
fn classify_todo() {
    assert!(classify_added_line("// TODO: refactor").iter().any(|(k, _)| *k == WarningKind::Todo));
    assert!(classify_added_line("// FIXME: bug").iter().any(|(k, _)| *k == WarningKind::Todo));
}

#[test]
fn classify_clean_line_no_hits() {
    assert!(classify_added_line("fn add(a: i32, b: i32) -> i32 { a + b }").is_empty());
    assert!(classify_added_line("const greeting = \"hello\";").is_empty());
}

#[test]
fn classify_sensitive_in_code() {
    assert!(classify_added_line("const token = \"ghp_xxx\";").iter().any(|(k, _)| *k == WarningKind::SensitiveInfo));
    let hit = classify_added_line("password = \"secret123\"");
    let s = hit.iter().find(|(k, _)| *k == WarningKind::SensitiveInfo).unwrap();
    assert!(!s.1.contains("secret123"));
}

fn added(content: &str) -> DiffLine {
    DiffLine { kind: LineKind::Added, content: content.to_string() }
}

#[test]
fn report_numbers_added_lines_in_the_new_file() {
    let h = Hunk {
        old_start: 3,
        new_start: 10,
        heading: String::new(),
        lines: vec![
            DiffLine { kind: LineKind::Context, content: "ctx".into() },
            DiffLine { kind: LineKind::Removed, content: "gone".into() },
            added("// TODO: later"),
        ],
        raw: String::new(),
    };
    let f = FileDiff { path: "src/x.rs".into(), binary: false, hunks: vec![h], header_raw: String::new() };
    let report = precommit_warnings(&[f], &[None]);
    assert_eq!(report.warnings.len(), 1);
    assert_eq!(report.warnings[0].kind, WarningKind::Todo);
    assert_eq!(report.warnings[0].line, Some(11));
    assert_eq!(report.warnings[0].file, "src/x.rs");
}

#[test]
fn report_flags_env_file_and_large_file() {
    let f = FileDiff { path: ".env".into(), binary: true, hunks: vec![], header_raw: String::new() };
    let report = precommit_warnings(&[f], &[Some(LARGE_FILE_BYTES + 2048)]);
    assert_eq!(report.warnings.len(), 2);
    assert_eq!(report.warnings[0].kind, WarningKind::SensitiveInfo);
    assert_eq!(report.warnings[1].kind, WarningKind::LargeFile);
    assert_eq!(report.warnings[1].detail, format!("{} KB(>1MB)", (LARGE_FILE_BYTES + 2048) / 1024));
}
