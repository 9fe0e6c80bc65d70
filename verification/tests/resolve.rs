use gitcore::resolve::{parse_conflicts, rebuild, refine_segments, Choice, ConflictHunk, Resolution, Segment};

#[test]
fn parse_and_rebuild_roundtrip() {
    let text = "line1\n<<<<<<< HEAD\nY\n||||||| base\nline2\n=======\nX\n>>>>>>> origin/main\nline3\n";
    let segs = parse_conflicts(text);
    assert_eq!(rebuild(&segs, &[Choice::Theirs]), "line1\nX\nline3\n");
    assert_eq!(rebuild(&segs, &[Choice::Ours]), "line1\nY\nline3\n");
    assert_eq!(rebuild(&segs, &[Choice::Base]), "line1\nline2\nline3\n");
}

#[test]
fn magic_classifies_hunks() {
    let only_theirs = ConflictHunk { ours: "x\n".into(), base: "x\n".into(), theirs: "y\n".into() };
    assert_eq!(only_theirs.magic(), Resolution::AutoTheirs);
    let only_ours = ConflictHunk { ours: "y\n".into(), base: "x\n".into(), theirs: "x\n".into() };
    assert_eq!(only_ours.magic(), Resolution::AutoOurs);
    let both = ConflictHunk { ours: "a\n".into(), base: "x\n".into(), theirs: "b\n".into() };
    assert_eq!(both.magic(), Resolution::NeedsUser);
}

#[test]
fn refine_whole_block_single_side_auto_resolved() {
    let h = ConflictHunk { ours: "a\nB\nc\n".into(), base: "a\nb\nc\n".into(), theirs: "a\nb\nc\n".into() };
    assert_eq!(h.refine(), vec![Segment::AutoResolved("a\nB\nc\n".into())]);
}

#[test]
fn refine_splits_inner_single_sides() {
    let h = ConflictHunk { ours: "A\nB\n4\n".into(), base: "2\n3\n4\n".into(), theirs: "2\nC\nD\n".into() };
    assert_eq!(
        h.refine(),
        vec![
            Segment::AutoResolved("A\n".into()),
            Segment::Conflict(ConflictHunk { ours: "B\n".into(), base: "3\n".into(), theirs: "C\n".into() }),
            Segment::AutoResolved("D\n".into()),
        ]
    );
}

#[test]
fn refine_keeps_real_conflict_for_user() {
    let h = ConflictHunk { ours: "a\nX\nc\n".into(), base: "a\nb\nc\n".into(), theirs: "a\nY\nc\n".into() };
    assert_eq!(
        h.refine(),
        vec![
            Segment::AutoResolved("a\n".into()),
            Segment::Conflict(ConflictHunk { ours: "X\n".into(), base: "b\n".into(), theirs: "Y\n".into() }),
            Segment::AutoResolved("c\n".into()),
        ]
    );
}

#[test]
fn marker_free_text_rebuilds_unchanged() {
    let text = "a\nb\nc";
    let segs = parse_conflicts(text);
    assert_eq!(segs, vec![Segment::Clean("a\nb\nc".into())]);
    assert_eq!(rebuild(&segs, &[]), text);
}

#[test]
fn auto_choice_follows_magic() {
    let h = ConflictHunk { ours: "x\n".into(), base: "x\n".into(), theirs: "y\n".into() };
    assert_eq!(h.magic().auto_choice(), Some(Choice::Theirs));
    assert_eq!(Resolution::AutoOurs.auto_choice(), Some(Choice::Ours));
    assert_eq!(Resolution::NeedsUser.auto_choice(), None);
}

#[test]
fn refine_segments_refines_each_conflict() {
    let text = "top\n<<<<<<< HEAD\na\nB\n||||||| base\na\nb\n=======\na\nb\n>>>>>>> other\n";
    let segs = refine_segments(parse_conflicts(text));
    assert_eq!(segs, vec![Segment::Clean("top\n".into()), Segment::AutoResolved("a\nB\n".into())]);
}

#[test]
fn swapping_sides_mirrors_refinement() {
    let h = ConflictHunk { ours: "a\nY\nc\nQ\n".into(), base: "a\nb\nc\nd\n".into(), theirs: "X\nb\nc\nR\n".into() };
    let swapped = ConflictHunk { ours: h.theirs.clone(), base: h.base.clone(), theirs: h.ours.clone() };
    let mirrored: Vec<Segment> = h
        .refine()
        .into_iter()
        .map(|s| match s {
            Segment::Conflict(c) => Segment::Conflict(ConflictHunk { ours: c.theirs, base: c.base, theirs: c.ours }),
            other => other,
        })
        .collect();
    assert_eq!(swapped.refine(), mirrored);
    assert!(mirrored.iter().any(|s| matches!(s, Segment::Conflict(_))));
}

#[test]
fn missing_choices_default_to_ours_and_extra_ones_are_ignored() {
    let text = "a\n<<<<<<< HEAD\nO1\n||||||| base\nB1\n=======\nT1\n>>>>>>> x\nb\n<<<<<<< HEAD\nO2\n||||||| base\nB2\n=======\nT2\n>>>>>>> x\n";
    let segs = parse_conflicts(text);
    assert_eq!(rebuild(&segs, &[Choice::Theirs]), rebuild(&segs, &[Choice::Theirs, Choice::Ours]));
    assert_eq!(rebuild(&segs, &[Choice::Theirs]), "a\nT1\nb\nO2\n");
    assert_eq!(rebuild(&segs, &[Choice::Base, Choice::Theirs, Choice::Theirs]), "a\nB1\nb\nT2\n");
    assert_eq!(rebuild(&segs, &[]), "a\nO1\nb\nO2\n");
}
