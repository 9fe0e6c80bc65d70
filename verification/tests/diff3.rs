use gitcore::diff3::{merge3, merge_regions, Merge, MergeRegion, RegionKind};

fn res(s: &str) -> Merge {
    Merge::Resolved(s.into())
}

fn cf(o: &str, b: &str, t: &str) -> Merge {
    Merge::Conflict { ours: o.into(), base: b.into(), theirs: t.into() }
}

#[test]
fn whole_block_only_ours_changed() {
    assert_eq!(merge3("a\nB\nc\n", "a\nb\nc\n", "a\nb\nc\n"), vec![res("a\nB\nc\n")]);
}

#[test]
fn whole_block_only_theirs_changed() {
    assert_eq!(merge3("a\nb\nc\n", "a\nb\nc\n", "a\nb\nC\n"), vec![res("a\nb\nC\n")]);
}

#[test]
fn disjoint_inner_changes_fully_resolve() {
    assert_eq!(merge3("A\nb\nc\n", "a\nb\nc\n", "a\nb\nC\n"), vec![res("A\nb\nC\n")]);
}

#[test]
fn same_line_both_changed_is_conflict() {
    assert_eq!(
        merge3("a\nX\nc\n", "a\nb\nc\n", "a\nY\nc\n"),
        vec![res("a\n"), cf("X\n", "b\n", "Y\n"), res("c\n")]
    );
}

#[test]
fn overlap_splits_single_sides_out() {
    assert_eq!(
        merge3("A\nB\n4\n", "2\n3\n4\n", "2\nC\nD\n"),
        vec![res("A\n"), cf("B\n", "3\n", "C\n"), res("D\n")]
    );
}

#[test]
fn overlap_strips_leading_single_side() {
    assert_eq!(
        merge3("A\nB\nC\n", "2\n3\n4\n", "2\nQ\nD\n"),
        vec![res("A\n"), cf("B\nC\n", "3\n4\n", "Q\nD\n")]
    );
}

#[test]
fn both_insert_same_lines() {
    assert_eq!(merge3("a\nb\nc\n", "a\nc\n", "a\nb\nc\n"), vec![res("a\nb\nc\n")]);
}

#[test]
fn both_insert_different_lines_conflict() {
    assert_eq!(
        merge3("a\nX\nc\n", "a\nc\n", "a\nY\nc\n"),
        vec![res("a\n"), cf("X\n", "", "Y\n"), res("c\n")]
    );
}

#[test]
fn unequal_rewrite_stays_conflict() {
    assert_eq!(merge3("X\nY\n", "2\n", "Z\n"), vec![cf("X\nY\n", "2\n", "Z\n")]);
}

fn kinds(rs: &[MergeRegion]) -> Vec<RegionKind> {
    rs.iter().map(|r| r.kind).collect()
}

#[test]
fn regions_classify_unchanged_ours_theirs_conflict() {
    let rs = merge_regions("l1\nOURS2\nl3\nA4\n", "l1\nl2\nl3\nl4\n", "l1\nl2\nTHEIRS3\nB4\n");
    assert_eq!(
        kinds(&rs),
        vec![RegionKind::Unchanged, RegionKind::OursOnly, RegionKind::TheirsOnly, RegionKind::Conflict]
    );
    assert_eq!(rs[1].ours, vec!["OURS2\n"]);
    assert_eq!(rs[1].theirs, vec!["l2\n"]);
    assert_eq!(rs[3].ours, vec!["A4\n"]);
    assert_eq!(rs[3].theirs, vec!["B4\n"]);
}

#[test]
fn regions_both_same_change() {
    let rs = merge_regions("a\nX\nc\n", "a\nb\nc\n", "a\nX\nc\n");
    assert_eq!(kinds(&rs), vec![RegionKind::Unchanged, RegionKind::BothSame, RegionKind::Unchanged]);
}

#[test]
fn regions_consecutive_same_kind_merged() {
    let rs = merge_regions("A\nB\nc\n", "a\nb\nc\n", "a\nb\nc\n");
    assert_eq!(kinds(&rs), vec![RegionKind::OursOnly, RegionKind::Unchanged]);
    assert_eq!(rs[0].ours, vec!["A\n", "B\n"]);
}

// ── laws on concrete values ──

#[test]
fn same_change_on_both_sides_resolves_to_it() {
    assert_eq!(merge3("a\nX\nc\n", "a\nb\nc\n", "a\nX\nc\n"), vec![res("a\nX\nc\n")]);
}

#[test]
fn unchanged_sides_give_the_base() {
    assert_eq!(merge3("a\nb\n", "a\nb\n", "a\nb\n"), vec![res("a\nb\n")]);
}

#[test]
fn empty_inputs_merge_to_nothing() {
    assert!(merge3("", "", "").is_empty());
    assert!(merge_regions("", "", "").is_empty());
}

#[test]
fn regions_cover_each_side_in_order() {
    let (o, b, t) = ("a\nX\nc\nd\nN\n", "a\nb\nc\nd\ne\n", "a\nb\nc\nY\nM\n");
    let rs = merge_regions(o, b, t);
    let side = |f: fn(&MergeRegion) -> &Vec<String>| rs.iter().flat_map(|r| f(r).iter().cloned()).collect::<String>();
    assert_eq!(side(|r| &r.ours), o);
    assert_eq!(side(|r| &r.base), b);
    assert_eq!(side(|r| &r.theirs), t);
    for r in &rs {
        match r.kind {
            RegionKind::Unchanged => assert!(r.ours == r.base && r.theirs == r.base),
            RegionKind::OursOnly => assert_eq!(r.theirs, r.base),
            RegionKind::TheirsOnly => assert_eq!(r.ours, r.base),
            RegionKind::BothSame => assert_eq!(r.ours, r.theirs),
            RegionKind::Conflict => {}
        }
    }
}

#[test]
fn swapping_sides_mirrors_merge() {
    let (o, b, t) = ("a\nY\nc\n", "a\nb\nc\n", "a\nZ\nc\n");
    let mirrored: Vec<Merge> = merge3(o, b, t)
        .into_iter()
        .map(|m| match m {
            Merge::Conflict { ours, base, theirs } => Merge::Conflict { ours: theirs, base, theirs: ours },
            other => other,
        })
        .collect();
    assert_eq!(merge3(t, b, o), mirrored);
    assert_eq!(mirrored, vec![res("a\n"), cf("Z\n", "b\n", "Y\n"), res("c\n")]);
}

#[test]
fn lcs_map_matches_a_longest_common_subsequence() {
    let lines = |s: &str| s.split_inclusive('\n').map(|l| l.chars().collect::<Vec<char>>()).collect::<Vec<_>>();
    let side = lines("x\na\nb\ny\nc\n");
    let base = lines("a\nq\nb\nc\n");
    let m = gitcore::lcs::lcs_map(&side, &base);
    assert_eq!(m, vec![Some(1), None, Some(2), Some(4)]);
}
