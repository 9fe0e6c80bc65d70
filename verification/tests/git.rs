use gitcore::git::{parse_progress, CancelToken};

#[test]
fn parse_progress_extracts_phase_and_percent() {
    let p = parse_progress("Receiving objects:  45% (450/1000), 1.2 MiB | 600 KiB/s").unwrap();
    assert_eq!(p.phase, "Receiving objects");
    assert_eq!(p.percent, Some(45));
    let p = parse_progress("Resolving deltas: 100% (300/300), done.").unwrap();
    assert_eq!(p.phase, "Resolving deltas");
    assert_eq!(p.percent, Some(100));
}

#[test]
fn parse_progress_keeps_phase_when_percent_unparseable() {
    let p = parse_progress("Counting objects: % weird").unwrap();
    assert_eq!(p.phase, "Counting objects");
    assert_eq!(p.percent, None);
    assert_eq!(p.raw, "Counting objects: % weird");
}

#[test]
fn parse_progress_ignores_non_progress_stderr() {
    assert!(parse_progress("fatal: not a git repository").is_none());
    assert!(parse_progress("hint: use --force to override").is_none());
    assert!(parse_progress("just some text").is_none());
    assert!(parse_progress("").is_none());
}

#[test]
fn cancel_token_shares_flag_across_clones() {
    let a = CancelToken::default();
    let b = a.clone();
    assert!(!b.is_cancelled());
    a.cancel();
    assert!(b.is_cancelled(), "clone 应共享同一标志位");
}

#[test]
fn percent_over_hundred_reads_as_unknown() {
    let p = parse_progress("a:200%").unwrap();
    assert_eq!(p.phase, "a");
    assert_eq!(p.percent, None);
    let q = parse_progress("Writing objects: 300% odd").unwrap();
    assert_eq!(q.percent, None);
    let full = parse_progress("Resolving deltas: 100% (3/3)").unwrap();
    assert_eq!(full.percent, Some(100));
}
