use gitcore::topology::{compute_multi_root_topology, compute_topology, parse_topo_raw_with_ts, GraphEdge, MergedGraphCommit, MergedGraphLog, RawCommit, RepoInput};

fn raw(sha: &str, parents: &[&str]) -> RawCommit {
    RawCommit {
        full_sha: sha.to_string(),
        parents: parents.iter().map(|s| s.to_string()).collect(),
        short_sha: sha[..8.min(sha.len())].to_string(),
        subject: String::new(),
        author: String::new(),
        date: String::new(),
    }
}

fn e(from_lane: usize, to_lane: usize) -> GraphEdge {
    GraphEdge { from_lane, to_lane }
}

#[test]
fn linear_two_commits() {
    let raws = &[raw("A", &["B"]), raw("B", &[])];
    let result = compute_topology(raws);
    assert_eq!(result.len(), 2);
    assert_eq!(result[0].lane, 0);
    assert_eq!(result[0].edges, vec![e(0, 0)]);
    assert_eq!(result[1].lane, 0);
    assert!(result[1].edges.is_empty(), "root commit 无 edge");
}

#[test]
fn linear_three_commits() {
    let raws = &[raw("A", &["B"]), raw("B", &["C"]), raw("C", &[])];
    let result = compute_topology(raws);
    assert_eq!(result.len(), 3);
    assert_eq!(result[0].lane, 0);
    assert_eq!(result[0].edges, vec![e(0, 0)]);
    assert_eq!(result[1].lane, 0);
    assert_eq!(result[1].edges, vec![e(0, 0)]);
    assert_eq!(result[2].lane, 0);
    assert!(result[2].edges.is_empty());
}

#[test]
fn branch_and_merge() {
    let raws = &[raw("M", &["P", "F"]), raw("P", &["B"]), raw("F", &["B"]), raw("B", &[])];
    let result = compute_topology(raws);
    assert_eq!(result.len(), 4);
    let m = &result[0];
    assert_eq!(m.lane, 0, "M 应在 lane 0");
    assert_eq!(m.parents, vec!["P", "F"]);
    assert_eq!(m.edges.len(), 2);
    assert!(m.edges.contains(&e(0, 0)));
    assert!(m.edges.contains(&e(0, 1)));
    let p = &result[1];
    assert_eq!(p.lane, 0);
    assert_eq!(p.edges.len(), 2);
    assert!(p.edges.contains(&e(0, 0)));
    assert!(p.edges.contains(&e(1, 1)));
    let f = &result[2];
    assert_eq!(f.lane, 1);
    assert_eq!(f.edges.len(), 2);
    assert!(f.edges.contains(&e(0, 0)));
    assert!(f.edges.contains(&e(1, 1)));
    let b = &result[3];
    assert_eq!(b.lane, 0);
    assert_eq!(b.parents, Vec::<String>::new());
    assert_eq!(b.edges.len(), 1);
    assert!(b.edges.contains(&e(1, 0)));
}

#[test]
fn cross_branches() {
    let raws = &[raw("A", &["B", "C"]), raw("C", &["D"]), raw("B", &["D"]), raw("D", &[])];
    let result = compute_topology(raws);
    assert_eq!(result.len(), 4);
    assert_eq!(result[0].lane, 0);
    assert!(result[0].edges.contains(&e(0, 0)));
    assert!(result[0].edges.contains(&e(0, 1)));
    assert_eq!(result[1].lane, 1);
    assert!(result[1].edges.contains(&e(0, 0)));
    assert!(result[1].edges.contains(&e(1, 1)));
    assert_eq!(result[2].lane, 0);
    assert!(result[2].edges.contains(&e(0, 0)));
    assert!(result[2].edges.contains(&e(1, 1)));
    assert_eq!(result[3].lane, 0);
    assert!(result[3].edges.contains(&e(1, 0)));
}

#[test]
fn octopus_merge() {
    let raws = &[raw("M", &["P1", "P2", "P3"]), raw("P3", &["B"]), raw("P2", &["B"]), raw("P1", &["B"]), raw("B", &[])];
    let result = compute_topology(raws);
    assert_eq!(result.len(), 5);
    let m = &result[0];
    assert_eq!(m.lane, 0);
    assert_eq!(m.parents.len(), 3);
    assert_eq!(m.edges.len(), 3);
    assert!(m.edges.contains(&e(0, 0)));
    assert!(m.edges.contains(&e(0, 1)));
    assert!(m.edges.contains(&e(0, 2)));
    let b = &result[4];
    assert_eq!(b.lane, 0);
    assert!(b.edges.contains(&e(1, 0)));
    assert!(b.edges.contains(&e(2, 0)));
}

#[test]
fn multiple_roots() {
    let raws = &[raw("A", &["B"]), raw("X", &["Y"]), raw("B", &[]), raw("Y", &[])];
    let result = compute_topology(raws);
    assert_eq!(result.len(), 4);
    assert_eq!(result[0].lane, 0);
    assert_eq!(result[0].edges, vec![e(0, 0)]);
    assert_eq!(result[1].lane, 1);
    assert_eq!(result[1].edges.len(), 2);
    assert!(result[1].edges.contains(&e(0, 0)));
    assert!(result[1].edges.contains(&e(1, 1)));
    assert_eq!(result[2].lane, 0);
    assert_eq!(result[2].edges, vec![e(1, 1)]);
    assert_eq!(result[3].lane, 1);
    assert!(result[3].edges.is_empty());
}

#[test]
fn interleaved_branches() {
    let raws = &[raw("A", &["B"]), raw("X", &["Y"]), raw("B", &["C"]), raw("Y", &["C"]), raw("C", &[])];
    let result = compute_topology(raws);
    assert_eq!(result.len(), 5);
    assert_eq!(result[0].lane, 0);
    assert_eq!(result[1].lane, 1);
    assert!(result[1].edges.contains(&e(0, 0)));
    assert!(result[1].edges.contains(&e(1, 1)));
    assert_eq!(result[2].lane, 0);
    assert_eq!(result[3].lane, 1);
    assert_eq!(result[4].lane, 0);
    assert!(result[4].edges.contains(&e(1, 0)));
}

#[test]
fn triple_merge() {
    let raws = &[raw("M", &["A", "B", "C"]), raw("C", &["R"]), raw("B", &["R"]), raw("A", &["R"]), raw("R", &[])];
    let result = compute_topology(raws);
    assert_eq!(result.len(), 5);
    let m = &result[0];
    assert_eq!(m.lane, 0);
    assert_eq!(m.edges.len(), 3);
    assert!(m.edges.contains(&e(0, 0)));
    assert!(m.edges.contains(&e(0, 1)));
    assert!(m.edges.contains(&e(0, 2)));
    assert_eq!(result[1].lane, 2);
    assert_eq!(result[2].lane, 1);
    assert_eq!(result[3].lane, 0);
    let r = &result[4];
    assert_eq!(r.lane, 0);
    assert!(r.edges.contains(&e(1, 0)));
    assert!(r.edges.contains(&e(2, 0)));
}

#[test]
fn additional_parent_already_in_lane() {
    let raws = &[raw("A", &["M"]), raw("M", &["P", "Q"]), raw("P", &["B"]), raw("Q", &["B"]), raw("B", &[])];
    let result = compute_topology(raws);
    assert_eq!(result.len(), 5);
    assert_eq!(result[0].lane, 0);
    assert_eq!(result[1].lane, 0);
    assert!(result[1].edges.contains(&e(0, 1)));
    assert_eq!(result[2].lane, 0);
    assert_eq!(result[3].lane, 1);
    assert_eq!(result[4].lane, 0);
    assert!(result[4].edges.contains(&e(1, 0)));
}

fn repo_input(index: usize, commits: Vec<(i64, RawCommit)>) -> RepoInput {
    RepoInput { index, label: format!("repo{index}"), path: format!("/repo{index}"), commits }
}

fn rts(ts: i64, sha: &str, parents: &[&str]) -> (i64, RawCommit) {
    (ts, raw(sha, parents))
}

#[test]
fn multi_parse_topo_raw_with_ts() {
    let out = "AAA\x00BBB CCC\x00aaa\x00subj A\x00alice\x002 days ago\x001700000002\n\
               BBB\x00\x00bbb\x00subj B\x00bob\x003 days ago\x001700000001";
    let parsed = parse_topo_raw_with_ts(out);
    assert_eq!(parsed.len(), 2);
    assert_eq!(parsed[0].0, 1700000002);
    assert_eq!(parsed[0].1.full_sha, "AAA");
    assert_eq!(parsed[0].1.parents, vec!["BBB", "CCC"]);
    assert_eq!(parsed[0].1.short_sha, "aaa");
    assert_eq!(parsed[0].1.subject, "subj A");
    assert_eq!(parsed[0].1.date, "2 days ago");
    assert_eq!(parsed[1].0, 1700000001);
    assert_eq!(parsed[1].1.parents, Vec::<String>::new());
}

fn max_lane_of(commits: &[MergedGraphCommit]) -> usize {
    let mut m = 0;
    for c in commits {
        m = m.max(c.lane);
        for ed in &c.edges {
            m = m.max(ed.from_lane).max(ed.to_lane);
        }
    }
    m
}

#[test]
fn multi_two_repos_interleave_compact() {
    let repos = &[
        repo_input(0, vec![rts(3, "A", &["B"]), rts(1, "B", &[])]),
        repo_input(1, vec![rts(4, "X", &["Y"]), rts(2, "Y", &[])]),
    ];
    let MergedGraphLog { roots, commits, .. } = compute_multi_root_topology(repos);
    assert_eq!(roots.iter().map(|r| r.index).collect::<Vec<_>>(), vec![0, 1]);
    let seq: Vec<(&str, usize, usize)> = commits.iter().map(|c| (c.entry.full_sha.as_str(), c.repo_index, c.lane)).collect();
    assert_eq!(seq, vec![("X", 1, 0), ("A", 0, 1), ("Y", 1, 0), ("B", 0, 1)]);
    assert_eq!(max_lane_of(&commits), 1, "紧凑布局总车道应为 2(lane 0/1)");
    let a = &commits[1];
    assert_eq!(a.edges.len(), a.edge_roots.len());
    for (ed, r) in a.edges.iter().zip(&a.edge_roots) {
        if ed.from_lane == 0 {
            assert_eq!(*r, 1, "pass-through 边应归子仓");
        }
        if ed.from_lane == 1 {
            assert_eq!(*r, 0, "自身边应归主仓");
        }
    }
}

#[test]
fn multi_empty_sub_in_roots_no_commits() {
    let repos = &[repo_input(0, vec![rts(2, "A", &["B"]), rts(1, "B", &[])]), repo_input(1, vec![])];
    let MergedGraphLog { roots, commits, .. } = compute_multi_root_topology(repos);
    assert_eq!(roots.len(), 2);
    assert_eq!(roots[1].index, 1);
    assert_eq!(commits.len(), 2);
    assert!(commits.iter().all(|c| c.repo_index == 0 && c.lane == 0));
}

#[test]
fn multi_octopus_compact() {
    let repos = &[
        repo_input(
            0,
            vec![rts(5, "M", &["P1", "P2", "P3"]), rts(4, "P3", &["B"]), rts(3, "P2", &["B"]), rts(2, "P1", &["B"]), rts(1, "B", &[])],
        ),
        repo_input(1, vec![rts(9, "X", &[])]),
    ];
    let MergedGraphLog { commits, .. } = compute_multi_root_topology(repos);
    assert_eq!(commits[0].entry.full_sha, "X");
    assert_eq!(commits[0].repo_index, 1);
    assert!(commits.iter().all(|c| c.edges.len() == c.edge_roots.len()));
}

#[test]
fn multi_lane_cap_bounds_width() {
    let parents: Vec<String> = (0..13).map(|i| format!("P{i}")).collect();
    let pref: Vec<&str> = parents.iter().map(|s| s.as_str()).collect();
    let mut commits = vec![rts(100, "M", &pref)];
    for (i, p) in parents.iter().enumerate() {
        commits.push(rts(50 - i as i64, p, &[]));
    }
    let repos = &[repo_input(0, commits)];
    let MergedGraphLog { commits, .. } = compute_multi_root_topology(repos);
    assert!(max_lane_of(&commits) < 8, "车道数应封顶在 MAX_LANES(8)");
}

#[test]
fn multi_tie_ts_main_first() {
    let repos = &[repo_input(0, vec![rts(5, "A", &[])]), repo_input(1, vec![rts(5, "X", &[])])];
    let MergedGraphLog { commits, .. } = compute_multi_root_topology(repos);
    assert_eq!(commits[0].repo_index, 0);
    assert_eq!(commits[1].repo_index, 1);
}

#[test]
fn multi_deselect_main_only_sub() {
    let repos = &[repo_input(1, vec![rts(2, "X", &["Y"]), rts(1, "Y", &[])])];
    let MergedGraphLog { roots, commits, .. } = compute_multi_root_topology(repos);
    assert_eq!(roots.len(), 1);
    assert_eq!(roots[0].index, 1);
    assert!(commits.iter().all(|c| c.lane == 0 && c.repo_index == 1));
    assert!(commits.iter().all(|c| c.edge_roots.iter().all(|&r| r == 1)));
}

#[test]
fn multi_single_repo_equivalent_to_compute_topology() {
    let raws = &[raw("M", &["P", "F"]), raw("P", &["B"]), raw("F", &["B"]), raw("B", &[])];
    let single = compute_topology(raws);
    let repos = &[repo_input(0, vec![rts(4, "M", &["P", "F"]), rts(3, "P", &["B"]), rts(2, "F", &["B"]), rts(1, "B", &[])])];
    let merged = compute_multi_root_topology(repos);
    assert_eq!(merged.commits.len(), single.len());
    for (m, s) in merged.commits.iter().zip(&single) {
        assert_eq!(m.entry.full_sha, s.entry.full_sha);
        assert_eq!(m.lane, s.lane, "lane 应与单仓一致");
        assert_eq!(m.edges, s.edges, "edges 应与单仓一致");
        assert_eq!(m.edges.len(), m.edge_roots.len());
        assert!(m.edge_roots.iter().all(|&r| r == 0));
    }
}

#[test]
fn row_edges_sorted_and_roots_end_their_lane() {
    let raws = &[
        raw("M", &["A", "F"]),
        raw("F", &["B"]),
        raw("A", &["B"]),
        raw("R", &[]),
        raw("B", &[]),
    ];
    let rows = compute_topology(raws);
    for (g, r) in rows.iter().zip(raws) {
        assert!(g.edges.windows(2).all(|w| (w[0].from_lane, w[0].to_lane) < (w[1].from_lane, w[1].to_lane)));
        assert_eq!(g.edges.contains(&e(g.lane, g.lane)), !r.parents.is_empty());
    }
}

#[test]
fn merged_stream_keeps_each_root_in_order_and_takes_the_newest_head() {
    // Root 1's second commit is older than root 0's first: root 0 must not wait behind it,
    // and root 1's own order holds even though its commits' timestamps are out of order.
    let repos = &[
        repo_input(0, vec![rts(5, "A", &["B"]), rts(2, "B", &[])]),
        repo_input(1, vec![rts(6, "X", &["Y"]), rts(7, "Y", &[])]),
    ];
    let merged = compute_multi_root_topology(repos);
    let order: Vec<&str> = merged.commits.iter().map(|c| c.entry.full_sha.as_str()).collect();
    assert_eq!(order, vec!["X", "Y", "A", "B"]);
    assert_eq!(merged.commits.len(), 4, "every commit is taken once");
}

#[test]
fn a_commit_takes_the_lane_reserved_for_it() {
    let raws = &[raw("M", &["P", "F"]), raw("F", &["B"]), raw("P", &["B"]), raw("B", &[])];
    let rows = compute_topology(raws);
    let lanes: Vec<usize> = rows.iter().map(|r| r.lane).collect();
    // M opens lane 0, its second parent F is reserved lane 1, P continues lane 0, and B
    // takes the leftmost lane waiting for it.
    assert_eq!(lanes, vec![0, 1, 0, 0]);
}
