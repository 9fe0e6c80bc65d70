//! A collapsible directory tree of file paths, as the rows a file list shows.
//!
//! Every directory on the way to a file is a node, and every path (split at `/`, empty
//! components dropped; a path with no component is left out) is a file node. The nodes
//! are listed in tree order: under each directory, directories before files, each by name
//! (code point order); a directory's contents follow it. Equal file paths keep the order
//! of the list. The content of a collapsed directory is hidden.
use vstd::prelude::*;
use crate::text::{split_char, views};
use crate::conflict::lex_lt;

verus! {

/// The kind of a tree row.
#[derive(Debug, Clone, Copy, PartialEq, Eq, Structural)]
pub enum RowKind {
    Dir { expanded: bool },
    /// `index` is the file's position in the path list.
    File { index: usize },
}

/// One visible row of the tree.
#[derive(Debug, Clone)]
pub struct TreeRow {
    pub depth: usize,
    pub name: String,
    /// The full relative path (of the directory or the file).
    pub path: String,
    pub kind: RowKind,
}

pub struct RowV {
    pub depth: usize,
    pub name: Seq<char>,
    pub path: Seq<char>,
    pub kind: RowKind,
}

pub open spec fn rows_view(v: Seq<TreeRow>) -> Seq<RowV> {
    v.map_values(|r: TreeRow| RowV { depth: r.depth, name: r.name@, path: r.path@, kind: r.kind })
}

/// A tree node: the components of its path, whether it is a file, and the file's index.
pub struct NodeV {
    pub comps: Seq<Seq<char>>,
    pub is_file: bool,
    pub index: usize,
}

// ───────────────────────── spec ─────────────────────────

/// The non-empty pieces of `ps[..n]`.
pub open spec fn nonempty_upto(ps: Seq<Seq<char>>, n: int) -> Seq<Seq<char>>
    decreases n,
{
    if n <= 0 {
        Seq::empty()
    } else {
        nonempty_upto(ps, n - 1) + if ps[n - 1].len() > 0 { seq![ps[n - 1]] } else { Seq::empty() }
    }
}

/// The components of a path: its `/`-separated pieces, empty ones dropped.
pub open spec fn components(p: Seq<char>) -> Seq<Seq<char>> {
    let ps = split_char(p, '/');
    nonempty_upto(ps, ps.len() as int)
}

/// The components joined with `/`.
pub open spec fn join_slash(c: Seq<Seq<char>>) -> Seq<char>
    decreases c.len(),
{
    if c.len() == 0 {
        Seq::empty()
    } else if c.len() == 1 {
        c[0]
    } else {
        join_slash(c.drop_last()) + seq!['/'] + c.last()
    }
}

/// Is there a directory node with these components in `ns`?
pub open spec fn has_dir(ns: Seq<NodeV>, c: Seq<Seq<char>>) -> bool {
    exists|i: int| 0 <= i < ns.len() && !(#[trigger] ns[i]).is_file && ns[i].comps == c
}

/// Adding the directories `c[..j]` for `j` in `from..last` that are not there yet.
pub open spec fn add_dirs(ns: Seq<NodeV>, c: Seq<Seq<char>>, from: int, last: int) -> Seq<NodeV>
    decreases last - from,
{
    if from >= last || from < 1 {
        ns
    } else {
        let d = c.take(from);
        let ns2 = if has_dir(ns, d) { ns } else { ns.push(NodeV { comps: d, is_file: false, index: 0 }) };
        add_dirs(ns2, c, from + 1, last)
    }
}

/// The nodes of `paths[..n]`, in creation order.
pub open spec fn nodes_upto(paths: Seq<Seq<char>>, n: int) -> Seq<NodeV>
    decreases n,
{
    if n <= 0 {
        Seq::empty()
    } else {
        let ns = nodes_upto(paths, n - 1);
        let c = components(paths[n - 1]);
        if c.len() == 0 {
            ns
        } else {
            add_dirs(ns, c, 1, c.len() as int).push(NodeV { comps: c, is_file: true, index: (n - 1) as usize })
        }
    }
}

/// The sort key of component `j` of a node: whether it is the file's own name, and the name.
pub open spec fn key_at(n: NodeV, j: int) -> (bool, Seq<char>) {
    (n.is_file && j == n.comps.len() - 1, n.comps[j])
}

/// Key order from component `j` on: directories before files, then by name; a prefix first.
pub open spec fn key_lt_from(a: NodeV, b: NodeV, j: int) -> bool
    decreases a.comps.len() - j,
{
    if j < 0 || j >= a.comps.len() {
        j >= 0 && j < b.comps.len()
    } else if j >= b.comps.len() {
        false
    } else {
        let ka = key_at(a, j);
        let kb = key_at(b, j);
        if ka.0 != kb.0 {
            !ka.0
        } else if ka.1 != kb.1 {
            lex_lt(ka.1, kb.1)
        } else {
            key_lt_from(a, b, j + 1)
        }
    }
}

pub open spec fn key_lt(a: NodeV, b: NodeV) -> bool {
    key_lt_from(a, b, 0)
}

/// Inserts `x` into a sorted list after every node not greater than it (stable).
pub open spec fn insert_node(s: Seq<NodeV>, x: NodeV) -> Seq<NodeV>
    decreases s.len(),
{
    if s.len() == 0 {
        seq![x]
    } else if !key_lt(x, s.last()) {
        s.push(x)
    } else {
        insert_node(s.drop_last(), x).push(s.last())
    }
}

/// The stable sort of `s` by key.
pub open spec fn sort_nodes(s: Seq<NodeV>) -> Seq<NodeV>
    decreases s.len(),
{
    if s.len() == 0 {
        Seq::empty()
    } else {
        insert_node(sort_nodes(s.drop_last()), s.last())
    }
}

/// Is `p` among the collapsed directory paths?
pub open spec fn is_collapsed(collapsed: Seq<Seq<char>>, p: Seq<char>) -> bool {
    collapsed.contains(p)
}

/// A node is visible when no directory above it is collapsed.
pub open spec fn visible(collapsed: Seq<Seq<char>>, n: NodeV) -> bool {
    forall|j: int| 1 <= j < n.comps.len() ==> !is_collapsed(collapsed, #[trigger] join_slash(n.comps.take(j)))
}

pub open spec fn row_of(collapsed: Seq<Seq<char>>, n: NodeV) -> RowV {
    RowV {
        depth: (n.comps.len() - 1) as usize,
        name: n.comps.last(),
        path: join_slash(n.comps),
        kind: if n.is_file {
            RowKind::File { index: n.index }
        } else {
            RowKind::Dir { expanded: !is_collapsed(collapsed, join_slash(n.comps)) }
        },
    }
}

/// The rows of the visible nodes among `ns[..n]`.
pub open spec fn rows_upto(collapsed: Seq<Seq<char>>, ns: Seq<NodeV>, n: int) -> Seq<RowV>
    decreases n,
{
    if n <= 0 {
        Seq::empty()
    } else {
        rows_upto(collapsed, ns, n - 1) + if visible(collapsed, ns[n - 1]) { seq![row_of(collapsed, ns[n - 1])] } else { Seq::empty() }
    }
}

/// The visible rows of the tree of `paths`, `collapsed` naming the collapsed directories.
pub open spec fn tree_rows_spec(paths: Seq<Seq<char>>, collapsed: Seq<Seq<char>>) -> Seq<RowV> {
    let ns = sort_nodes(nodes_upto(paths, paths.len() as int));
    rows_upto(collapsed, ns, ns.len() as int)
}


pub open spec fn all_nonempty(s: Seq<NodeV>) -> bool {
    forall|i: int| 0 <= i < s.len() ==> (#[trigger] s[i]).comps.len() >= 1
}

proof fn lemma_insert_nonempty(s: Seq<NodeV>, x: NodeV)
    requires
        all_nonempty(s),
        x.comps.len() >= 1,
    ensures
        all_nonempty(insert_node(s, x)),
    decreases s.len(),
{
    if s.len() > 0 && key_lt(x, s.last()) {
        lemma_insert_nonempty(s.drop_last(), x);
        assert(s.last() == s[s.len() - 1]);
    }
}

proof fn lemma_sort_nonempty(s: Seq<NodeV>)
    requires
        all_nonempty(s),
    ensures
        all_nonempty(sort_nodes(s)),
    decreases s.len(),
{
    if s.len() > 0 {
        lemma_sort_nonempty(s.drop_last());
        assert(s.last() == s[s.len() - 1]);
        lemma_insert_nonempty(sort_nodes(s.drop_last()), s.last());
    }
}

proof fn lemma_add_dirs_nonempty(ns: Seq<NodeV>, c: Seq<Seq<char>>, from: int, last: int)
    requires
        all_nonempty(ns),
        last <= c.len(),
    ensures
        all_nonempty(add_dirs(ns, c, from, last)),
    decreases last - from,
{
    if from < last && from >= 1 {
        let d = c.take(from);
        let ns2 = if has_dir(ns, d) { ns } else { ns.push(NodeV { comps: d, is_file: false, index: 0 }) };
        assert(all_nonempty(ns2));
        lemma_add_dirs_nonempty(ns2, c, from + 1, last);
    }
}

proof fn lemma_nodes_nonempty(paths: Seq<Seq<char>>, n: int)
    ensures
        all_nonempty(nodes_upto(paths, n)),
    decreases n,
{
    if n > 0 {
        lemma_nodes_nonempty(paths, n - 1);
        let c = components(paths[n - 1]);
        if c.len() > 0 {
            lemma_add_dirs_nonempty(nodes_upto(paths, n - 1), c, 1, c.len() as int);
        }
    }
}

// ───────────────────────── exec ─────────────────────────

struct Node {
    comps: Vec<Vec<char>>,
    is_file: bool,
    index: usize,
}

impl Node {
    spec fn view(&self) -> NodeV {
        NodeV { comps: views(self.comps@), is_file: self.is_file, index: self.index }
    }
}

spec fn nodes_view(v: Seq<Node>) -> Seq<NodeV> {
    v.map_values(|n: Node| n.view())
}

fn copy_prefix(c: &Vec<Vec<char>>, n: usize) -> (r: Vec<Vec<char>>)
    requires
        n <= c.len(),
    ensures
        views(r@) == views(c@).take(n as int),
{
    let mut r: Vec<Vec<char>> = Vec::new();
    let mut i: usize = 0;
    while i < n
        invariant
            i <= n,
            n <= c.len(),
            views(r@) == views(c@).take(i as int),
        decreases n - i,
    {
        let x = crate::text::slice_vec(&c[i], 0, c[i].len());
        assert(x@ =~= c@[i as int]@);
        let ghost before = views(r@);
        r.push(x);
        assert(views(r@) =~= before.push(x@));
        assert(views(c@).take(i + 1) =~= views(c@).take(i as int).push(views(c@)[i as int]));
        i = i + 1;
    }
    r
}

pub(crate) fn chars_eq(a: &Vec<char>, b: &Vec<char>) -> (r: bool)
    ensures
        r == (a@ == b@),
{
    if a.len() != b.len() {
        return false;
    }
    let mut i: usize = 0;
    while i < a.len()
        invariant
            i <= a.len(),
            a.len() == b.len(),
            forall|j: int| 0 <= j < i ==> a@[j] == b@[j],
        decreases a.len() - i,
    {
        if a[i] != b[i] {
            return false;
        }
        i = i + 1;
    }
    assert(a@ =~= b@);
    true
}

/// Are the components `a` those of `c[..n]`?
fn comps_eq_prefix(a: &Vec<Vec<char>>, c: &Vec<Vec<char>>, n: usize) -> (r: bool)
    requires
        n <= c.len(),
    ensures
        r == (views(a@) == views(c@).take(n as int)),
{
    if a.len() != n {
        assert(views(a@).len() != views(c@).take(n as int).len());
        return false;
    }
    let mut i: usize = 0;
    while i < n
        invariant
            i <= n,
            a.len() == n,
            n <= c.len(),
            forall|j: int| 0 <= j < i ==> views(a@)[j] == views(c@)[j],
        decreases n - i,
    {
        if !chars_eq(&a[i], &c[i]) {
            assert(views(a@)[i as int] != views(c@).take(n as int)[i as int]);
            return false;
        }
        i = i + 1;
    }
    assert(views(a@) =~= views(c@).take(n as int));
    true
}

pub(crate) fn components_exec(p: &str) -> (r: Vec<Vec<char>>)
    ensures
        views(r@) == components(p@),
{
    let ps = crate::text::split_on(&crate::text::chars_of(p), '/');
    let ghost pv = views(ps@);
    let mut r: Vec<Vec<char>> = Vec::new();
    let mut i: usize = 0;
    assert(views(r@) =~= nonempty_upto(pv, 0));
    while i < ps.len()
        invariant
            i <= ps.len(),
            pv == views(ps@),
            pv == split_char(p@, '/'),
            views(r@) == nonempty_upto(pv, i as int),
        decreases ps.len() - i,
    {
        assert(pv[i as int] == ps@[i as int]@);
        if ps[i].len() > 0 {
            let x = crate::text::slice_vec(&ps[i], 0, ps[i].len());
            assert(x@ =~= ps@[i as int]@);
            let ghost before = views(r@);
            r.push(x);
            assert(views(r@) =~= before.push(x@));
        } else {
            assert(nonempty_upto(pv, i + 1) =~= nonempty_upto(pv, i as int));
        }
        i = i + 1;
    }
    r
}

fn join_slash_exec(c: &Vec<Vec<char>>, n: usize) -> (r: Vec<char>)
    requires
        n <= c.len(),
    ensures
        r@ == join_slash(views(c@).take(n as int)),
{
    let mut r: Vec<char> = Vec::new();
    let mut i: usize = 0;
    assert(views(c@).take(0) =~= Seq::<Seq<char>>::empty());
    while i < n
        invariant
            i <= n,
            n <= c.len(),
            r@ == join_slash(views(c@).take(i as int)),
        decreases n - i,
    {
        let ghost t = views(c@).take(i + 1);
        assert(t.drop_last() =~= views(c@).take(i as int));
        assert(t.last() == c@[i as int]@);
        if i > 0 {
            r.push('/');
        } else {
            assert(t =~= seq![c@[0]@]);
        }
        crate::text::push_chars(&mut r, &c[i]);
        proof {
            if i > 0 {
                assert(r@ =~= join_slash(t.drop_last()) + seq!['/'] + t.last());
            } else {
                assert(r@ =~= c@[0]@);
            }
        }
        i = i + 1;
    }
    r
}

fn has_dir_exec(ns: &Vec<Node>, c: &Vec<Vec<char>>, n: usize) -> (r: bool)
    requires
        n <= c.len(),
    ensures
        r == has_dir(nodes_view(ns@), views(c@).take(n as int)),
{
    let ghost nv = nodes_view(ns@);
    let mut i: usize = 0;
    while i < ns.len()
        invariant
            i <= ns.len(),
            n <= c.len(),
            nv == nodes_view(ns@),
            forall|j: int| 0 <= j < i ==> !(!(#[trigger] nv[j]).is_file && nv[j].comps == views(c@).take(n as int)),
        decreases ns.len() - i,
    {
        assert(nv[i as int] == ns@[i as int].view());
        if !ns[i].is_file && comps_eq_prefix(&ns[i].comps, c, n) {
            return true;
        }
        i = i + 1;
    }
    false
}

fn key_lt_exec(a: &Node, b: &Node) -> (r: bool)
    ensures
        r == key_lt(a.view(), b.view()),
{
    let ghost av = a.view();
    let ghost bv = b.view();
    let mut j: usize = 0;
    while j < a.comps.len() && j < b.comps.len()
        invariant
            j <= a.comps.len(),
            j <= b.comps.len(),
            av == a.view(),
            bv == b.view(),
            key_lt(av, bv) == key_lt_from(av, bv, j as int),
        decreases a.comps.len() - j,
    {
        let fa = a.is_file && j == a.comps.len() - 1;
        let fb = b.is_file && j == b.comps.len() - 1;
        assert(key_at(av, j as int) == (fa, a.comps@[j as int]@));
        assert(key_at(bv, j as int) == (fb, b.comps@[j as int]@));
        if fa != fb {
            return !fa;
        }
        if !chars_eq(&a.comps[j], &b.comps[j]) {
            return crate::conflict::lex_less(&a.comps[j], &b.comps[j]);
        }
        j = j + 1;
    }
    j < b.comps.len()
}

fn copy_node(n: &Node) -> (r: Node)
    ensures
        r.view() == n.view(),
{
    let c = copy_prefix(&n.comps, n.comps.len());
    assert(views(n.comps@).take(n.comps.len() as int) =~= views(n.comps@));
    Node { comps: c, is_file: n.is_file, index: n.index }
}

fn insert_node_exec(out: &mut Vec<Node>, x: Node)
    ensures
        nodes_view(final(out)@) == insert_node(nodes_view(old(out)@), x.view()),
    decreases old(out)@.len(),
{
    let ghost before = nodes_view(out@);
    if out.len() == 0 {
        out.push(x);
        assert(nodes_view(out@) =~= seq![x.view()]);
        return;
    }
    let n = out.len();
    assert(before.last() == out@[n - 1].view());
    if !key_lt_exec(&x, &out[n - 1]) {
        out.push(x);
        assert(nodes_view(out@) =~= before.push(x.view()));
        return;
    }
    let last = out.pop().unwrap();
    assert(nodes_view(out@) =~= before.drop_last());
    insert_node_exec(out, x);
    let ghost mid = nodes_view(out@);
    out.push(last);
    assert(nodes_view(out@) =~= mid.push(last.view()));
}

fn sort_nodes_exec(v: Vec<Node>) -> (r: Vec<Node>)
    ensures
        nodes_view(r@) == sort_nodes(nodes_view(v@)),
{
    let ghost all = nodes_view(v@);
    let mut out: Vec<Node> = Vec::new();
    let mut i: usize = 0;
    assert(all.take(0) =~= Seq::<NodeV>::empty());
    while i < v.len()
        invariant
            i <= v.len(),
            all == nodes_view(v@),
            nodes_view(out@) == sort_nodes(all.take(i as int)),
        decreases v.len() - i,
    {
        assert(all[i as int] == v@[i as int].view());
        let x = copy_node(&v[i]);
        insert_node_exec(&mut out, x);
        assert(all.take(i + 1).drop_last() =~= all.take(i as int));
        i = i + 1;
    }
    assert(all.take(v.len() as int) =~= all);
    out
}

fn add_dirs_exec(ns: &mut Vec<Node>, c: &Vec<Vec<char>>)
    requires
        c.len() >= 1,
    ensures
        nodes_view(final(ns)@) == add_dirs(nodes_view(old(ns)@), views(c@), 1, c.len() as int),
{
    let mut j: usize = 1;
    while j < c.len()
        invariant
            1 <= j <= c.len(),
            add_dirs(nodes_view(old(ns)@), views(c@), 1, c.len() as int) == add_dirs(nodes_view(ns@), views(c@), j as int, c.len() as int),
        decreases c.len() - j,
    {
        let ghost before = nodes_view(ns@);
        if !has_dir_exec(ns, c, j) {
            let d = copy_prefix(c, j);
            ns.push(Node { comps: d, is_file: false, index: 0 });
            assert(nodes_view(ns@) =~= before.push(NodeV { comps: views(c@).take(j as int), is_file: false, index: 0 }));
        }
        j = j + 1;
    }
}

fn is_collapsed_exec(collapsed: &[String], p: &Vec<char>) -> (r: bool)
    ensures
        r == is_collapsed(collapsed@.map_values(|x: String| x@), p@),
{
    let ghost cv = collapsed@.map_values(|x: String| x@);
    let mut i: usize = 0;
    while i < collapsed.len()
        invariant
            i <= collapsed.len(),
            cv == collapsed@.map_values(|x: String| x@),
            forall|j: int| 0 <= j < i ==> cv[j] != p@,
        decreases collapsed.len() - i,
    {
        let x = crate::text::chars_of(collapsed[i].as_str());
        if chars_eq(&x, p) {
            assert(cv[i as int] == p@);
            return true;
        }
        i = i + 1;
    }
    assert(!cv.contains(p@));
    false
}

fn visible_exec(collapsed: &[String], n: &Node) -> (r: bool)
    ensures
        r == visible(collapsed@.map_values(|x: String| x@), n.view()),
{
    let ghost cv = collapsed@.map_values(|x: String| x@);
    let mut j: usize = 1;
    while j < n.comps.len()
        invariant
            1 <= j,
            cv == collapsed@.map_values(|x: String| x@),
            forall|m: int| 1 <= m < j && m < n.comps.len() ==> !is_collapsed(cv, #[trigger] join_slash(views(n.comps@).take(m))),
        decreases n.comps.len() - j,
    {
        let p = join_slash_exec(&n.comps, j);
        if is_collapsed_exec(collapsed, &p) {
            assert(is_collapsed(cv, join_slash(n.view().comps.take(j as int))));
            return false;
        }
        j = j + 1;
    }
    true
}

/// The visible rows of the directory tree of `paths`; `collapsed` holds the paths
/// (`a/b`) of the collapsed directories.
pub fn build_rows(paths: &[String], collapsed: &[String]) -> (r: Vec<TreeRow>)
    ensures
        rows_view(r@) == tree_rows_spec(paths@.map_values(|x: String| x@), collapsed@.map_values(|x: String| x@)),
{
    let ghost pv = paths@.map_values(|x: String| x@);
    let ghost cv = collapsed@.map_values(|x: String| x@);
    let mut ns: Vec<Node> = Vec::new();
    let mut i: usize = 0;
    while i < paths.len()
        invariant
            i <= paths.len(),
            pv == paths@.map_values(|x: String| x@),
            nodes_view(ns@) == nodes_upto(pv, i as int),
        decreases paths.len() - i,
    {
        assert(pv[i as int] == paths@[i as int]@);
        let c = components_exec(paths[i].as_str());
        if c.len() > 0 {
            add_dirs_exec(&mut ns, &c);
            let ghost before = nodes_view(ns@);
            let f = Node { comps: c, is_file: true, index: i };
            ns.push(f);
            assert(nodes_view(ns@) =~= before.push(f.view()));
        }
        i = i + 1;
    }
    proof {
        lemma_nodes_nonempty(pv, paths.len() as int);
    }
    let ghost unsorted = nodes_view(ns@);
    let sorted = sort_nodes_exec(ns);
    let ghost sv = nodes_view(sorted@);
    proof {
        lemma_sort_nonempty(unsorted);
    }
    let mut rows: Vec<TreeRow> = Vec::new();
    let mut k: usize = 0;
    assert(rows_view(rows@) =~= rows_upto(cv, sv, 0));
    while k < sorted.len()
        invariant
            k <= sorted.len(),
            sv == nodes_view(sorted@),
            cv == collapsed@.map_values(|x: String| x@),
            rows_view(rows@) == rows_upto(cv, sv, k as int),
            all_nonempty(sv),
        decreases sorted.len() - k,
    {
        let n = &sorted[k];
        assert(sv[k as int] == n.view());
        assert(sv[k as int].comps.len() >= 1);
        if visible_exec(collapsed, n) {
            let len = n.comps.len();
            let path = join_slash_exec(&n.comps, len);
            assert(views(n.comps@).take(len as int) =~= views(n.comps@));
            let kind = if n.is_file {
                RowKind::File { index: n.index }
            } else {
                RowKind::Dir { expanded: !is_collapsed_exec(collapsed, &path) }
            };
            let row = TreeRow {
                depth: len - 1,
                name: crate::text::string_of(&n.comps[len - 1]),
                path: crate::text::string_of(&path),
                kind,
            };
            let ghost before = rows_view(rows@);
            rows.push(row);
            assert(rows_view(rows@) =~= before.push(row_of(cv, sv[k as int])));
        } else {
            assert(rows_upto(cv, sv, k + 1) =~= rows_upto(cv, sv, k as int));
        }
        k = k + 1;
    }
    rows
}


// ───────────────────────── laws ─────────────────────────

/// The file node of path `i`.
pub open spec fn file_node(paths: Seq<Seq<char>>, i: int) -> NodeV {
    NodeV { comps: components(paths[i]), is_file: true, index: i as usize }
}

proof fn lemma_add_dirs_keeps(ns: Seq<NodeV>, c: Seq<Seq<char>>, from: int, last: int)
    ensures
        forall|x: NodeV| ns.contains(x) ==> add_dirs(ns, c, from, last).contains(x),
        forall|x: NodeV| add_dirs(ns, c, from, last).contains(x) ==> ns.contains(x) || !x.is_file,
    decreases last - from,
{
    if from < last && from >= 1 {
        let d = c.take(from);
        let ns2 = if has_dir(ns, d) { ns } else { ns.push(NodeV { comps: d, is_file: false, index: 0 }) };
        lemma_add_dirs_keeps(ns2, c, from + 1, last);
        assert forall|x: NodeV| ns.contains(x) implies ns2.contains(x) by {
            let k = choose|k: int| 0 <= k < ns.len() && ns[k] == x;
            assert(ns2[k] == x);
        }
        assert forall|x: NodeV| ns2.contains(x) implies ns.contains(x) || !x.is_file by {
            let k = choose|k: int| 0 <= k < ns2.len() && ns2[k] == x;
            if k < ns.len() {
                assert(ns[k] == x);
            }
        }
    }
}

/// The file nodes among the nodes of `paths[..n]` are those of the paths with components.
proof fn lemma_nodes_files(paths: Seq<Seq<char>>, n: int)
    requires
        0 <= n <= paths.len(),
        paths.len() <= usize::MAX,
    ensures
        forall|i: int| 0 <= i < n && components(paths[i]).len() > 0 ==> nodes_upto(paths, n).contains(#[trigger] file_node(paths, i)),
        forall|x: NodeV| nodes_upto(paths, n).contains(x) && x.is_file ==>
            0 <= x.index < n && x == file_node(paths, x.index as int),
    decreases n,
{
    if n > 0 {
        lemma_nodes_files(paths, n - 1);
        let ns = nodes_upto(paths, n - 1);
        let c = components(paths[n - 1]);
        if c.len() > 0 {
            let added = add_dirs(ns, c, 1, c.len() as int);
            lemma_add_dirs_keeps(ns, c, 1, c.len() as int);
            let all = added.push(file_node(paths, n - 1));
            assert(all == nodes_upto(paths, n));
            assert forall|i: int| 0 <= i < n && components(paths[i]).len() > 0 implies all.contains(#[trigger] file_node(paths, i)) by {
                if i == n - 1 {
                    assert(all[all.len() - 1] == file_node(paths, i));
                } else {
                    assert(ns.contains(file_node(paths, i)));
                    assert(added.contains(file_node(paths, i)));
                    let k = choose|k: int| 0 <= k < added.len() && added[k] == file_node(paths, i);
                    assert(all[k] == file_node(paths, i));
                }
            }
            assert forall|x: NodeV| all.contains(x) && x.is_file implies 0 <= x.index < n && x == file_node(paths, x.index as int) by {
                let k = choose|k: int| 0 <= k < all.len() && all[k] == x;
                if k < added.len() {
                    assert(added[k] == x);
                    assert(added.contains(x));
                    assert(ns.contains(x));
                } else {
                    assert(x == file_node(paths, n - 1));
                    assert(x.index as int == n - 1);
                }
            }
        }
    }
}

proof fn lemma_insert_members(s: Seq<NodeV>, x: NodeV)
    ensures
        insert_node(s, x).contains(x),
        forall|y: NodeV| s.contains(y) ==> insert_node(s, x).contains(y),
        forall|y: NodeV| insert_node(s, x).contains(y) ==> y == x || s.contains(y),
    decreases s.len(),
{
    let r = insert_node(s, x);
    if s.len() == 0 {
        assert(r[0] == x);
    } else if !key_lt(x, s.last()) {
        assert(r[r.len() - 1] == x);
        assert forall|y: NodeV| s.contains(y) implies r.contains(y) by {
            let k = choose|k: int| 0 <= k < s.len() && s[k] == y;
            assert(r[k] == y);
        }
        assert forall|y: NodeV| r.contains(y) implies y == x || s.contains(y) by {
            let k = choose|k: int| 0 <= k < r.len() && r[k] == y;
            if k < s.len() {
                assert(s[k] == y);
            }
        }
    } else {
        let t = s.drop_last();
        lemma_insert_members(t, x);
        let it = insert_node(t, x);
        assert(r == it.push(s.last()));
        let kx = choose|k: int| 0 <= k < it.len() && it[k] == x;
        assert(r[kx] == x);
        assert forall|y: NodeV| s.contains(y) implies r.contains(y) by {
            let k = choose|k: int| 0 <= k < s.len() && s[k] == y;
            if k == s.len() - 1 {
                assert(r[r.len() - 1] == y);
            } else {
                assert(t[k] == y);
                assert(t.contains(y));
                let j = choose|j: int| 0 <= j < it.len() && it[j] == y;
                assert(r[j] == y);
            }
        }
        assert forall|y: NodeV| r.contains(y) implies y == x || s.contains(y) by {
            let k = choose|k: int| 0 <= k < r.len() && r[k] == y;
            if k == r.len() - 1 {
                assert(s[s.len() - 1] == y);
            } else {
                assert(it[k] == y);
                assert(it.contains(y));
                if y != x {
                    assert(t.contains(y));
                    let j = choose|j: int| 0 <= j < t.len() && t[j] == y;
                    assert(s[j] == y);
                }
            }
        }
    }
}

proof fn lemma_sort_members(s: Seq<NodeV>)
    ensures
        forall|y: NodeV| s.contains(y) <==> sort_nodes(s).contains(y),
    decreases s.len(),
{
    if s.len() > 0 {
        let t = s.drop_last();
        lemma_sort_members(t);
        lemma_insert_members(sort_nodes(t), s.last());
        assert forall|y: NodeV| s.contains(y) <==> sort_nodes(s).contains(y) by {
            if s.contains(y) {
                let k = choose|k: int| 0 <= k < s.len() && s[k] == y;
                if k < s.len() - 1 {
                    assert(t[k] == y);
                    assert(t.contains(y));
                }
            }
            if sort_nodes(s).contains(y) && y != s.last() {
                assert(sort_nodes(t).contains(y));
                assert(t.contains(y));
                let j = choose|j: int| 0 <= j < t.len() && t[j] == y;
                assert(s[j] == y);
            }
        }
    }
}

/// With nothing collapsed, the rows are those of all the nodes, in order.
proof fn lemma_rows_all_visible(ns: Seq<NodeV>, n: int)
    requires
        0 <= n <= ns.len(),
    ensures
        rows_upto(Seq::empty(), ns, n) == ns.take(n).map_values(|x: NodeV| row_of(Seq::empty(), x)),
    decreases n,
{
    if n > 0 {
        lemma_rows_all_visible(ns, n - 1);
        assert(visible(Seq::empty(), ns[n - 1]));
        assert(ns.take(n).map_values(|x: NodeV| row_of(Seq::empty(), x))
            =~= ns.take(n - 1).map_values(|x: NodeV| row_of(Seq::empty(), x)).push(row_of(Seq::empty(), ns[n - 1])));
    }
}

/// With nothing collapsed, the tree shows every file: each path with components has a
/// file row whose path is the path's components joined with `/`, and every file row is one
/// of the paths.
pub proof fn law_every_file_has_its_row(paths: Seq<Seq<char>>)
    requires
        paths.len() <= usize::MAX,
    ensures
        forall|i: int| 0 <= i < paths.len() && components(paths[i]).len() > 0 ==>
            exists|k: int| 0 <= k < tree_rows_spec(paths, Seq::empty()).len()
                && #[trigger] tree_rows_spec(paths, Seq::empty())[k] == row_of(Seq::empty(), file_node(paths, i)),
        forall|k: int| 0 <= k < tree_rows_spec(paths, Seq::empty()).len()
            && (#[trigger] tree_rows_spec(paths, Seq::empty())[k]).kind is File ==>
            tree_rows_spec(paths, Seq::empty())[k].kind->index < paths.len()
            && tree_rows_spec(paths, Seq::empty())[k].path
                == join_slash(components(paths[tree_rows_spec(paths, Seq::empty())[k].kind->index as int])),
{
    let ns0 = nodes_upto(paths, paths.len() as int);
    let ns = sort_nodes(ns0);
    let rows = tree_rows_spec(paths, Seq::empty());
    lemma_nodes_files(paths, paths.len() as int);
    lemma_sort_members(ns0);
    lemma_rows_all_visible(ns, ns.len() as int);
    assert(ns.take(ns.len() as int) =~= ns);
    assert(rows == ns.map_values(|x: NodeV| row_of(Seq::empty(), x)));
    assert forall|i: int| 0 <= i < paths.len() && components(paths[i]).len() > 0 implies
        exists|k: int| 0 <= k < rows.len() && #[trigger] rows[k] == row_of(Seq::empty(), file_node(paths, i)) by {
        assert(ns0.contains(file_node(paths, i)));
        assert(ns.contains(file_node(paths, i)));
        let k = choose|k: int| 0 <= k < ns.len() && ns[k] == file_node(paths, i);
        assert(rows[k] == row_of(Seq::empty(), file_node(paths, i)));
    }
    assert forall|k: int| 0 <= k < rows.len() && (#[trigger] rows[k]).kind is File implies
        rows[k].kind->index < paths.len() && rows[k].path == join_slash(components(paths[rows[k].kind->index as int])) by {
        let x = ns[k];
        assert(rows[k] == row_of(Seq::empty(), x));
        assert(ns.contains(x));
        assert(ns0.contains(x));
        assert(x.is_file);
    }
}

} // verus!
