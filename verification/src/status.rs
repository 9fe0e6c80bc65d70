//! Working-tree status: the parser of `git status --porcelain=v2 --branch -z`.
use vstd::prelude::*;
use crate::text::{split_char, starts_with, splitn_char, ws_tokens, parse_unsigned, views, index_of};

verus! {

/// Where a file's changes are.
#[derive(Debug, Clone, Copy, PartialEq, Eq, Structural)]
pub enum FileState {
    /// Staged for commit.
    Staged,
    /// Changed, not staged.
    Modified,
    /// Not tracked.
    Untracked,
    /// Staged, and changed again since.
    StagedAndModified,
}

/// One file's status (its path relative to the working tree).
#[derive(Debug, Clone)]
pub struct FileStatus {
    pub path: String,
    pub state: FileState,
}

/// The state of a working tree at one moment.
#[derive(Debug, Clone)]
pub struct RepoStatus {
    /// The current branch; `None` on a detached HEAD.
    pub branch: Option<String>,
    /// Its upstream (such as `origin/main`), if set.
    pub upstream: Option<String>,
    /// Commits behind the upstream.
    pub behind: u32,
    /// Commits ahead of the upstream.
    pub ahead: u32,
    /// Uncommitted changes (untracked files count).
    pub dirty: bool,
    /// The conflicted files.
    pub conflicted: Vec<String>,
    /// The files with changes, and where the changes are.
    pub files: Vec<FileStatus>,
    /// The submodules.
    pub submodules: Vec<crate::submodule::Submodule>,
}

/// What `parse_v2` reads: branch, upstream and ahead/behind from the `# branch.*`
/// headers, files and conflicts from the entries.
#[derive(Debug, Clone)]
pub struct ParsedV2 {
    pub branch: Option<String>,
    pub upstream: Option<String>,
    pub ahead: u32,
    pub behind: u32,
    pub files: Vec<FileStatus>,
    pub conflicted: Vec<String>,
    /// Whether any change entry (`1`, `2`, `u` or `?`) was read, parsed into a file or not.
    pub changed: bool,
}

/// The parser's state as sequences; `skip` marks the rename source record still to drop.
pub struct V2State {
    pub branch: Option<Seq<char>>,
    pub upstream: Option<Seq<char>>,
    pub ahead: u32,
    pub behind: u32,
    pub files: Seq<(Seq<char>, FileState)>,
    pub conflicted: Seq<Seq<char>>,
    pub changed: bool,
    pub skip: bool,
}

pub open spec fn opt_view(o: Option<String>) -> Option<Seq<char>> {
    match o {
        Some(s) => Some(s@),
        None => None,
    }
}

pub open spec fn files_view(v: Seq<FileStatus>) -> Seq<(Seq<char>, FileState)> {
    v.map_values(|f: FileStatus| (f.path@, f.state))
}

pub open spec fn strs(v: Seq<String>) -> Seq<Seq<char>> {
    v.map_values(|s: String| s@)
}

impl ParsedV2 {
    pub open spec fn view(&self) -> V2State {
        V2State {
            branch: opt_view(self.branch),
            upstream: opt_view(self.upstream),
            ahead: self.ahead,
            behind: self.behind,
            files: files_view(self.files@),
            conflicted: strs(self.conflicted@),
            changed: self.changed,
            skip: false,
        }
    }
}

// ───────────────────────── spec ─────────────────────────

/// `"+3 -2"` of `# branch.ab`, token by token: `+n` sets ahead, `-n` sets behind
/// (a count that does not parse reads as 0).
pub open spec fn ab_scan(toks: Seq<Seq<char>>, n: int) -> (u32, u32)
    decreases n,
{
    if n <= 0 {
        (0, 0)
    } else {
        let (a, b) = ab_scan(toks, n - 1);
        let t = toks[n - 1];
        if starts_with(t, seq!['+']) {
            (count_of(t.drop_first()), b)
        } else if starts_with(t, seq!['-']) {
            (a, count_of(t.drop_first()))
        } else {
            (a, b)
        }
    }
}

pub open spec fn count_of(s: Seq<char>) -> u32 {
    match parse_unsigned(s, u32::MAX as nat) {
        Some(v) => v as u32,
        None => 0,
    }
}

pub open spec fn parse_ab_spec(s: Seq<char>) -> (u32, u32) {
    let toks = ws_tokens(s);
    ab_scan(toks, toks.len() as int)
}

/// The status code and path of an entry: the path is field `k` (space-separated, taking
/// the rest of the line); `None` for a malformed line or an empty path.
pub open spec fn xy_path(rest: Seq<char>, k: nat) -> Option<(char, char, Seq<char>)> {
    let parts = splitn_char(rest, k + 1, ' ');
    if parts.len() < k + 1 || parts[0].len() < 2 || parts[k as int].len() == 0 {
        None
    } else {
        Some((parts[0][0], parts[0][1], parts[k as int]))
    }
}

/// The state of a status code `XY` (`X` index, `Y` work tree, `.` unchanged).
pub open spec fn xy_state(x: char, y: char) -> Option<FileState> {
    if x == '.' && (y == 'M' || y == 'D') {
        Some(FileState::Modified)
    } else if y == '.' && (x == 'M' || x == 'A' || x == 'D' || x == 'R' || x == 'C') {
        Some(FileState::Staged)
    } else if y == 'M' && (x == 'M' || x == 'A') {
        Some(FileState::StagedAndModified)
    } else {
        None
    }
}

pub open spec fn after_prefix(r: Seq<char>, p: Seq<char>) -> Seq<char> {
    r.skip(p.len() as int)
}

/// One NUL-separated record through the parser.
pub open spec fn v2_step(st: V2State, r: Seq<char>) -> V2State {
    if st.skip {
        V2State { skip: false, ..st }
    } else if r.len() == 0 {
        st
    } else if starts_with(r, "# branch.head "@) {
        let rest = after_prefix(r, "# branch.head "@);
        V2State { branch: if rest == "(detached)"@ { None } else { Some(rest) }, ..st }
    } else if starts_with(r, "# branch.upstream "@) {
        V2State { upstream: Some(after_prefix(r, "# branch.upstream "@)), ..st }
    } else if starts_with(r, "# branch.ab "@) {
        let (a, b) = parse_ab_spec(after_prefix(r, "# branch.ab "@));
        V2State { ahead: a, behind: b, ..st }
    } else if starts_with(r, "1 "@) {
        let st = V2State { changed: true, ..st };
        match xy_path(after_prefix(r, "1 "@), 7) {
            Some((x, y, p)) => match xy_state(x, y) {
                Some(s) => V2State { files: st.files.push((p, s)), ..st },
                None => st,
            },
            None => st,
        }
    } else if starts_with(r, "2 "@) {
        let st = V2State { changed: true, ..st };
        match xy_path(after_prefix(r, "2 "@), 8) {
            Some((x, y, p)) => V2State {
                files: st.files.push((p, if y == 'M' { FileState::StagedAndModified } else { FileState::Staged })),
                skip: true,
                ..st
            },
            None => V2State { skip: true, ..st },
        }
    } else if starts_with(r, "u "@) {
        let st = V2State { changed: true, ..st };
        match xy_path(after_prefix(r, "u "@), 9) {
            Some((x, y, p)) => V2State { conflicted: st.conflicted.push(p), ..st },
            None => st,
        }
    } else if starts_with(r, "? "@) {
        V2State { files: st.files.push((after_prefix(r, "? "@), FileState::Untracked)), changed: true, ..st }
    } else {
        st
    }
}

pub open spec fn v2_scan(rs: Seq<Seq<char>>, n: int) -> V2State
    decreases n,
{
    if n <= 0 {
        V2State {
            branch: None,
            upstream: None,
            ahead: 0,
            behind: 0,
            files: Seq::empty(),
            conflicted: Seq::empty(),
            changed: false,
            skip: false,
        }
    } else {
        v2_step(v2_scan(rs, n - 1), rs[n - 1])
    }
}

/// The parse of porcelain v2 output (the pending-skip flag is not part of the result).
pub open spec fn parse_v2_spec(out: Seq<char>) -> V2State {
    let rs = split_char(out, '\0');
    V2State { skip: false, ..v2_scan(rs, rs.len() as int) }
}

// ───────────────────────── what the parse reads from where ─────────────────────────

/// Record `r` is an unmerged entry (`u`) whose path is `p`.
pub open spec fn unmerged_record(r: Seq<char>, p: Seq<char>) -> bool {
    starts_with(r, "u "@) && (xy_path(after_prefix(r, "u "@), 9) matches Some((_, _, q)) && q == p)
}

/// Record `r` is an entry that gives file `f`: an untracked one (`?`) for its path, a
/// changed one (`1`) with a status code of that state, or a renamed or copied one (`2`),
/// always staged, also modified when its work-tree code is `M`.
pub open spec fn file_record(r: Seq<char>, f: (Seq<char>, FileState)) -> bool {
    ||| starts_with(r, "? "@) && f == (after_prefix(r, "? "@), FileState::Untracked)
    ||| starts_with(r, "1 "@) && (xy_path(after_prefix(r, "1 "@), 7) matches Some((x, y, q)) && q == f.0 && xy_state(x, y) == Some(f.1))
    ||| starts_with(r, "2 "@) && (xy_path(after_prefix(r, "2 "@), 8) matches Some((x, y, q)) && q == f.0
        && f.1 == (if y == 'M' { FileState::StagedAndModified } else { FileState::Staged }))
}

/// Record `r` is a change entry: changed, renamed or copied, unmerged, or untracked.
pub open spec fn change_record(r: Seq<char>) -> bool {
    starts_with(r, "1 "@) || starts_with(r, "2 "@) || starts_with(r, "u "@) || starts_with(r, "? "@)
}

proof fn lemma_v2_step_sources(st: V2State, r: Seq<char>)
    ensures
        forall|k: int| #![trigger v2_step(st, r).conflicted[k]] 0 <= k < v2_step(st, r).conflicted.len() ==>
            (k < st.conflicted.len() && v2_step(st, r).conflicted[k] == st.conflicted[k]) || unmerged_record(r, v2_step(st, r).conflicted[k]),
        forall|k: int| #![trigger v2_step(st, r).files[k]] 0 <= k < v2_step(st, r).files.len() ==>
            (k < st.files.len() && v2_step(st, r).files[k] == st.files[k]) || file_record(r, v2_step(st, r).files[k]),
        v2_step(st, r).changed ==> st.changed || change_record(r),
{
    let nx = v2_step(st, r);
    if st.skip || r.len() == 0 || starts_with(r, "# branch.head "@) || starts_with(r, "# branch.upstream "@) || starts_with(r, "# branch.ab "@) {
        assert(nx.conflicted == st.conflicted && nx.files == st.files && nx.changed == st.changed);
    } else if starts_with(r, "1 "@) {
        assert(nx.conflicted == st.conflicted);
        assert forall|k: int| #![trigger nx.files[k]] 0 <= k < nx.files.len() implies
            (k < st.files.len() && nx.files[k] == st.files[k]) || file_record(r, nx.files[k]) by {
            if k >= st.files.len() {
                assert(file_record(r, nx.files[k]));
            }
        }
    } else if starts_with(r, "2 "@) {
        assert(nx.conflicted == st.conflicted);
        assert forall|k: int| #![trigger nx.files[k]] 0 <= k < nx.files.len() implies
            (k < st.files.len() && nx.files[k] == st.files[k]) || file_record(r, nx.files[k]) by {
            if k >= st.files.len() {
                assert(file_record(r, nx.files[k]));
            }
        }
    } else if starts_with(r, "u "@) {
        assert(nx.files == st.files);
        assert forall|k: int| #![trigger nx.conflicted[k]] 0 <= k < nx.conflicted.len() implies
            (k < st.conflicted.len() && nx.conflicted[k] == st.conflicted[k]) || unmerged_record(r, nx.conflicted[k]) by {
            if k >= st.conflicted.len() {
                assert(unmerged_record(r, nx.conflicted[k]));
            }
        }
    } else if starts_with(r, "? "@) {
        assert(nx.conflicted == st.conflicted);
        assert forall|k: int| #![trigger nx.files[k]] 0 <= k < nx.files.len() implies
            (k < st.files.len() && nx.files[k] == st.files[k]) || file_record(r, nx.files[k]) by {
            if k >= st.files.len() {
                assert(file_record(r, nx.files[k]));
            }
        }
    } else {
        assert(nx == st);
    }
}

/// Path `p` is that of an unmerged record among `rs[..n]`.
pub open spec fn unmerged_among(rs: Seq<Seq<char>>, n: int, p: Seq<char>) -> bool {
    exists|j: int| 0 <= j < n && #[trigger] unmerged_record(rs[j], p)
}

/// File `f` is given by a record among `rs[..n]`.
pub open spec fn file_among(rs: Seq<Seq<char>>, n: int, f: (Seq<char>, FileState)) -> bool {
    exists|j: int| 0 <= j < n && #[trigger] file_record(rs[j], f)
}

/// A change record is among `rs[..n]`.
pub open spec fn change_among(rs: Seq<Seq<char>>, n: int) -> bool {
    exists|j: int| 0 <= j < n && #[trigger] change_record(rs[j])
}

proof fn lemma_v2_sources(rs: Seq<Seq<char>>, n: int)
    requires
        0 <= n <= rs.len(),
    ensures
        forall|k: int| 0 <= k < v2_scan(rs, n).conflicted.len() ==> #[trigger] unmerged_among(rs, n, v2_scan(rs, n).conflicted[k]),
        forall|k: int| 0 <= k < v2_scan(rs, n).files.len() ==> #[trigger] file_among(rs, n, v2_scan(rs, n).files[k]),
        v2_scan(rs, n).changed ==> change_among(rs, n),
    decreases n,
{
    if n > 0 {
        lemma_v2_sources(rs, n - 1);
        let st = v2_scan(rs, n - 1);
        let nx = v2_scan(rs, n);
        lemma_v2_step_sources(st, rs[n - 1]);
        assert(nx == v2_step(st, rs[n - 1]));
        assert forall|k: int| 0 <= k < nx.conflicted.len() implies #[trigger] unmerged_among(rs, n, nx.conflicted[k]) by {
            if k < st.conflicted.len() && nx.conflicted[k] == st.conflicted[k] {
                assert(unmerged_among(rs, n - 1, st.conflicted[k]));
                let j = choose|j: int| 0 <= j < n - 1 && #[trigger] unmerged_record(rs[j], st.conflicted[k]);
                assert(unmerged_record(rs[j], nx.conflicted[k]));
            } else {
                assert(unmerged_record(rs[n - 1], nx.conflicted[k]));
            }
        }
        assert forall|k: int| 0 <= k < nx.files.len() implies #[trigger] file_among(rs, n, nx.files[k]) by {
            if k < st.files.len() && nx.files[k] == st.files[k] {
                assert(file_among(rs, n - 1, st.files[k]));
                let j = choose|j: int| 0 <= j < n - 1 && #[trigger] file_record(rs[j], st.files[k]);
                assert(file_record(rs[j], nx.files[k]));
            } else {
                assert(file_record(rs[n - 1], nx.files[k]));
            }
        }
        if nx.changed {
            if st.changed {
                let j = choose|j: int| 0 <= j < n - 1 && #[trigger] change_record(rs[j]);
                assert(change_record(rs[j]));
            } else {
                assert(change_record(rs[n - 1]));
            }
        }
    }
}

/// Every entry the status parse reports comes from a record of git's output: each
/// conflicted path from an unmerged (`u`) record, each file with its state from a changed,
/// renamed or untracked record; and a tree is reported changed only when a change record
/// was read (ignored `!` paths and `#` headers never make it so).
pub proof fn law_status_entries_come_from_records(out: Seq<char>)
    ensures
        forall|k: int| 0 <= k < parse_v2_spec(out).conflicted.len()
            ==> #[trigger] unmerged_among(split_char(out, '\0'), split_char(out, '\0').len() as int, parse_v2_spec(out).conflicted[k]),
        forall|k: int| 0 <= k < parse_v2_spec(out).files.len()
            ==> #[trigger] file_among(split_char(out, '\0'), split_char(out, '\0').len() as int, parse_v2_spec(out).files[k]),
        parse_v2_spec(out).changed ==> change_among(split_char(out, '\0'), split_char(out, '\0').len() as int),
{
    let rs = split_char(out, '\0');
    lemma_v2_sources(rs, rs.len() as int);
    assert(parse_v2_spec(out).conflicted == v2_scan(rs, rs.len() as int).conflicted);
    assert(parse_v2_spec(out).files == v2_scan(rs, rs.len() as int).files);
}

/// A changed-entry record (`1`) of the porcelain output, alone and `\0`-terminated as git
/// writes it, lists its path with the state its status code `XY` means (`X` the index,
/// `Y` the work tree, `.` unchanged): a change in the index only (`M`, `A`, `D`, `R` or
/// `C` with `.`) is staged; a change in the work tree only (`.` with `M` or `D`) is
/// modified; a modified or added file changed again in the work tree (`MM`, `AM`) is both.
pub proof fn law_changed_record_state(r: Seq<char>, x: char, y: char, path: Seq<char>)
    requires
        starts_with(r, "1 "@),
        !r.contains('\0'),
        xy_path(r.skip(2), 7) == Some((x, y, path)),
    ensures
        (y == '.' && (x == 'M' || x == 'A' || x == 'D' || x == 'R' || x == 'C'))
            ==> parse_v2_spec(r + "\0"@).files == seq![(path, FileState::Staged)],
        (x == '.' && (y == 'M' || y == 'D')) ==> parse_v2_spec(r + "\0"@).files == seq![(path, FileState::Modified)],
        (y == 'M' && (x == 'M' || x == 'A')) ==> parse_v2_spec(r + "\0"@).files == seq![(path, FileState::StagedAndModified)],
        parse_v2_spec(r + "\0"@).changed,
        parse_v2_spec(r + "\0"@).conflicted.len() == 0,
{
    reveal_strlit("\0");
    reveal_strlit("1 ");
    let out = r + "\0"@;
    crate::text::lemma_index_of_from_bounds(out, '\0', 0);
    assert(out[r.len() as int] == '\0');
    if index_of(out, '\0') < r.len() {
        assert(r[index_of(out, '\0')] == '\0');
        assert(r.contains('\0'));
    }
    assert(index_of(out, '\0') == r.len());
    assert(out.take(r.len() as int) =~= r);
    assert(out.skip(r.len() as int + 1) =~= Seq::<char>::empty());
    assert(index_of(Seq::<char>::empty(), '\0') == 0);
    assert(split_char(Seq::<char>::empty(), '\0') == seq![Seq::<char>::empty()]);
    let rs = split_char(out, '\0');
    assert(rs =~= seq![r, Seq::<char>::empty()]);
    let st0 = v2_scan(rs, 0);
    assert(r.len() > 0);
    assert(!starts_with(r, "# branch.head "@)) by {
        reveal_strlit("# branch.head ");
        assert(r.take(2)[0] == r[0]);
        if starts_with(r, "# branch.head "@) {
            assert(r.take(14)[0] == r[0]);
        }
    }
    assert(!starts_with(r, "# branch.upstream "@)) by {
        reveal_strlit("# branch.upstream ");
        assert(r.take(2)[0] == r[0]);
        if starts_with(r, "# branch.upstream "@) {
            assert(r.take(18)[0] == r[0]);
        }
    }
    assert(!starts_with(r, "# branch.ab "@)) by {
        reveal_strlit("# branch.ab ");
        assert(r.take(2)[0] == r[0]);
        if starts_with(r, "# branch.ab "@) {
            assert(r.take(12)[0] == r[0]);
        }
    }
    assert(after_prefix(r, "1 "@) == r.skip(2));
    let st1 = v2_scan(rs, 1);
    assert(st1 == v2_step(st0, r));
    assert(v2_scan(rs, 2) == v2_step(st1, Seq::<char>::empty()));
}

// ───────────────────────── exec ─────────────────────────

/// `"+3 -2"` (the part after `# branch.ab `) as `(ahead, behind)`.
pub fn parse_ab(s: &str) -> (r: (u32, u32))
    ensures
        r == parse_ab_spec(s@),
{
    let toks = crate::text::split_ws(&crate::text::chars_of(s));
    let ghost tv = views(toks@);
    let mut ahead: u32 = 0;
    let mut behind: u32 = 0;
    let mut i: usize = 0;
    while i < toks.len()
        invariant
            i <= toks.len(),
            tv == views(toks@),
            (ahead, behind) == ab_scan(tv, i as int),
        decreases toks.len() - i,
    {
        let t = &toks[i];
        assert(tv[i as int] == t@);
        if t.len() >= 1 && t[0] == '+' {
            assert(starts_with(t@, seq!['+'])) by {
                assert(t@.take(1) =~= seq!['+']);
            }
            let rest = crate::text::slice_vec(t, 1, t.len());
            assert(rest@ =~= t@.drop_first());
            ahead = match crate::text::parse_u32(&rest) {
                Some(v) => v,
                None => 0,
            };
        } else if t.len() >= 1 && t[0] == '-' {
            assert(!starts_with(t@, seq!['+'])) by {
                assert(t@.take(1)[0] == '-');
            }
            assert(starts_with(t@, seq!['-'])) by {
                assert(t@.take(1) =~= seq!['-']);
            }
            let rest = crate::text::slice_vec(t, 1, t.len());
            assert(rest@ =~= t@.drop_first());
            behind = match crate::text::parse_u32(&rest) {
                Some(v) => v,
                None => 0,
            };
        } else {
            assert(!starts_with(t@, seq!['+']) && !starts_with(t@, seq!['-'])) by {
                if t@.len() >= 1 {
                    assert(t@.take(1)[0] == t@[0]);
                }
            }
        }
        i = i + 1;
    }
    (ahead, behind)
}

/// The status code and path of an entry line (its leading kind character and space removed).
fn split_xy_path(rest: &[char], path_idx: usize) -> (r: Option<(char, char, Vec<char>)>)
    requires
        path_idx < usize::MAX,
    ensures
        match r {
            Some((x, y, p)) => xy_path(rest@, path_idx as nat) == Some((x, y, p@)),
            None => xy_path(rest@, path_idx as nat) is None,
        },
{
    let parts = crate::text::splitn_on(rest, path_idx + 1, ' ');
    assert(views(parts@).len() == parts@.len());
    if parts.len() < path_idx + 1 {
        return None;
    }
    assert(views(parts@)[0] == parts@[0]@);
    assert(views(parts@)[path_idx as int] == parts@[path_idx as int]@);
    if parts[0].len() < 2 || parts[path_idx].len() == 0 {
        return None;
    }
    let x = parts[0][0];
    let y = parts[0][1];
    let p = crate::text::slice_vec(&parts[path_idx], 0, parts[path_idx].len());
    assert(p@ =~= parts@[path_idx as int]@);
    Some((x, y, p))
}

fn xy_to_state(x: char, y: char) -> (r: Option<FileState>)
    ensures
        r == xy_state(x, y),
{
    if x == '.' && (y == 'M' || y == 'D') {
        Some(FileState::Modified)
    } else if y == '.' && (x == 'M' || x == 'A' || x == 'D' || x == 'R' || x == 'C') {
        Some(FileState::Staged)
    } else if y == 'M' && (x == 'M' || x == 'A') {
        Some(FileState::StagedAndModified)
    } else {
        None
    }
}

fn push_file(files: &mut Vec<FileStatus>, path: &Vec<char>, state: FileState)
    ensures
        files_view(final(files)@) == files_view(old(files)@).push((path@, state)),
{
    files.push(FileStatus { path: crate::text::string_of(path), state });
    assert(files_view(files@) =~= files_view(old(files)@).push((path@, state)));
}

/// Parses `git status --porcelain=v2 --branch -z`: NUL-separated records, `# branch.*`
/// headers, then entries `1` (changed), `2` (renamed or copied, followed by a record with
/// the source path), `u` (unmerged), `?` (untracked) and `!` (ignored).
pub fn parse_v2(output: &str) -> (r: ParsedV2)
    ensures
        r.view() == parse_v2_spec(output@),
{
    let recs = crate::text::split_on(&crate::text::chars_of(output), '\0');
    let ghost rv = views(recs@);
    let mut branch: Option<String> = None;
    let mut upstream: Option<String> = None;
    let mut ahead: u32 = 0;
    let mut behind: u32 = 0;
    let mut files: Vec<FileStatus> = Vec::new();
    let mut conflicted: Vec<String> = Vec::new();
    let mut changed = false;
    let mut skip = false;
    let mut i: usize = 0;
    assert(files_view(files@) =~= Seq::<(Seq<char>, FileState)>::empty());
    assert(strs(conflicted@) =~= Seq::<Seq<char>>::empty());
    while i < recs.len()
        invariant
            i <= recs.len(),
            rv == views(recs@),
            rv == split_char(output@, '\0'),
            (V2State {
                branch: opt_view(branch),
                upstream: opt_view(upstream),
                ahead,
                behind,
                files: files_view(files@),
                conflicted: strs(conflicted@),
                changed,
                skip,
            }) == v2_scan(rv, i as int),
        decreases recs.len() - i,
    {
        let r = &recs[i];
        assert(rv[i as int] == r@);
        if skip {
            skip = false;
        } else if r.len() == 0 {
        } else if let Some(rest) = crate::text::strip_prefix_str(r, "# branch.head ") {
            branch = if crate::text::eq_str(&rest, "(detached)") {
                None
            } else {
                Some(crate::text::string_of(&rest))
            };
        } else if let Some(rest) = crate::text::strip_prefix_str(r, "# branch.upstream ") {
            upstream = Some(crate::text::string_of(&rest));
        } else if let Some(rest) = crate::text::strip_prefix_str(r, "# branch.ab ") {
            let ab = parse_ab(crate::text::string_of(&rest).as_str());
            ahead = ab.0;
            behind = ab.1;
        } else if let Some(rest) = crate::text::strip_prefix_str(r, "1 ") {
            changed = true;
            if let Some((x, y, path)) = split_xy_path(&rest, 7) {
                if let Some(state) = xy_to_state(x, y) {
                    push_file(&mut files, &path, state);
                }
            }
        } else if let Some(rest) = crate::text::strip_prefix_str(r, "2 ") {
            changed = true;
            skip = true;
            if let Some((_x, y, path)) = split_xy_path(&rest, 8) {
                let state = if y == 'M' { FileState::StagedAndModified } else { FileState::Staged };
                push_file(&mut files, &path, state);
            }
        } else if let Some(rest) = crate::text::strip_prefix_str(r, "u ") {
            changed = true;
            if let Some((_x, _y, path)) = split_xy_path(&rest, 9) {
                let ghost before = strs(conflicted@);
                conflicted.push(crate::text::string_of(&path));
                assert(strs(conflicted@) =~= before.push(path@));
            }
        } else if let Some(rest) = crate::text::strip_prefix_str(r, "? ") {
            changed = true;
            push_file(&mut files, &rest, FileState::Untracked);
        }
        i = i + 1;
    }
    ParsedV2 { branch, upstream, ahead, behind, files, conflicted, changed }
}

} // verus!
