use gitcore::log::{parse_log, parse_log_with_ts, sort_newest_first, split_window};

fn shas(items: &[&str]) -> Vec<String> {
    items.iter().map(|s| s.to_string()).collect()
}

#[test]
fn split_window_first_page_no_anchor() {
    let (win, anchor) = split_window(shas(&["a", "b", "c"]), 0, 3, |s: &String| s.as_str());
    assert_eq!(win, shas(&["a", "b", "c"]));
    assert_eq!(anchor, None);
}

#[test]
fn split_window_tail_with_anchor() {
    let (win, anchor) = split_window(shas(&["a", "b", "c", "d"]), 2, 2, |s: &String| s.as_str());
    assert_eq!(win, shas(&["c", "d"]));
    assert_eq!(anchor, Some("b".to_string()));
}

#[test]
fn split_window_at_end_returns_empty_with_anchor() {
    let (win, anchor) = split_window(shas(&["a", "b"]), 2, 2, |s: &String| s.as_str());
    assert!(win.is_empty());
    assert_eq!(anchor, Some("b".to_string()));
}

#[test]
fn split_window_past_end_no_anchor() {
    let (win, anchor) = split_window(shas(&["a", "b"]), 5, 2, |s: &String| s.as_str());
    assert!(win.is_empty());
    assert_eq!(anchor, None);
}

#[test]
fn split_window_truncates_to_max_count() {
    let (win, anchor) = split_window(shas(&["a", "b", "c", "d", "e", "f"]), 2, 2, |s: &String| s.as_str());
    assert_eq!(win, shas(&["c", "d"]));
    assert_eq!(anchor, Some("b".to_string()));
}

#[test]
fn parse_log_skips_malformed_lines() {
    let es = parse_log("H1\0h1\0subj\0ann\x002024-01-01\nbad line\n");
    assert_eq!(es.len(), 1);
    assert_eq!(es[0].full_sha, "H1");
    assert_eq!(es[0].message, "subj");
}

#[test]
fn log_with_timestamps_defaults_unparsed_to_zero() {
    let rows = parse_log_with_ts("A\0a\0s\0x\0d\x00123\nB\0b\0s\0y\0d\0oops\n");
    assert_eq!(rows.len(), 2);
    assert_eq!(rows[0].0, 123);
    assert_eq!(rows[1].0, 0);
}

#[test]
fn newest_first_is_stable_for_equal_times() {
    let sorted = sort_newest_first(vec![(1, "a"), (3, "b"), (1, "c"), (3, "d")]);
    assert_eq!(sorted, vec![(3, "b"), (3, "d"), (1, "a"), (1, "c")]);
}

#[test]
fn sorting_keeps_every_item() {
    let items = vec![(2, "a"), (5, "b"), (2, "c"), (9, "d"), (5, "e")];
    let mut sorted = sort_newest_first(items.clone());
    assert_eq!(sorted.iter().map(|x| x.1).collect::<Vec<_>>(), vec!["d", "b", "e", "a", "c"]);
    sorted.sort();
    let mut original = items;
    original.sort();
    assert_eq!(sorted, original);
}
