//! The changes of the working tree, the index and commits as structured diffs; staging and
//! unstaging single hunks or lines; reading a file at a revision; the pre-commit check.
use vstd::prelude::*;
use crate::text::{lines, trim, parse_unsigned, views, decimal};
use crate::error::{Error, ErrorV};
use crate::repo::{Repo, Reply, Request, RequestV, Step, Flow, Outcome, GitOutV, ReplyV, step_view, flow_view, map_done, then, run_git, run_checked, io_reply, git_reply, git_req, replies_view, strs, s, path_join, unit_spec};
use crate::hunk::{FileDiff, FileV, Hunk, HunkV, files_view, parse_spec, untracked_spec, patch_spec, partial_patch_spec};
use crate::precommit::{PrecommitReport, warns_view, report_spec, WarnV};

verus! {

pub open spec fn diff_head() -> Seq<Seq<char>> {
    seq!["-c"@, "diff.noprefix=false"@, "-c"@, "diff.mnemonicprefix=false"@]
}

pub open spec fn unstaged_args() -> Seq<Seq<char>> {
    diff_head() + seq!["diff"@, "--no-color"@]
}

pub open spec fn cached_args() -> Seq<Seq<char>> {
    diff_head() + seq!["diff"@, "--cached"@, "--no-color"@]
}

pub open spec fn untracked_list_args() -> Seq<Seq<char>> {
    seq!["-c"@, "core.quotepath=false"@, "ls-files"@, "--others"@, "--exclude-standard"@]
}

pub open spec fn opt_file(o: Option<FileDiff>) -> Option<FileV> {
    match o {
        Some(f) => Some(f.view()),
        None => None,
    }
}

/// An untracked file as a wholly added diff (reply `k` reads its bytes); `None` when it
/// cannot be read.
pub open spec fn untracked_at(rs: Seq<ReplyV>, k: int, dir: Seq<char>, path: Seq<char>) -> Outcome<(Option<FileV>, int)> {
    match io_reply(rs, k, RequestV::ReadBytes(path_join(dir, path))) {
        Outcome::Ask(q) => Outcome::Ask(q),
        Outcome::Fail(_) => Outcome::Done((None, k + 1)),
        Outcome::Done(ReplyV::Bytes(b)) => Outcome::Done((Some(untracked_spec(path, b)), k + 1)),
        Outcome::Done(_) => Outcome::Done((None, k + 1)),
    }
}

/// The untracked files `paths[i..]` as diffs (those that can be read), from reply `k`.
pub open spec fn untracked_from(rs: Seq<ReplyV>, k: int, dir: Seq<char>, paths: Seq<Seq<char>>, i: int) -> Outcome<Seq<FileV>>
    decreases paths.len() - i,
{
    if i < 0 || i >= paths.len() {
        Outcome::Done(Seq::empty())
    } else {
        match untracked_at(rs, k, dir, paths[i]) {
            Outcome::Ask(q) => Outcome::Ask(q),
            Outcome::Fail(e) => Outcome::Fail(e),
            Outcome::Done((f, k2)) => match untracked_from(rs, k2, dir, paths, i + 1) {
                Outcome::Ask(q) => Outcome::Ask(q),
                Outcome::Fail(e) => Outcome::Fail(e),
                Outcome::Done(rest) => Outcome::Done(match f {
                    Some(fv) => seq![fv] + rest,
                    None => rest,
                }),
            },
        }
    }
}

/// The unstaged changes: `git diff`, then the untracked files as wholly added diffs.
pub open spec fn unstaged_spec(rs: Seq<ReplyV>, dir: Seq<char>) -> Outcome<Seq<FileV>> {
    then(run_git(rs, 0, dir, unstaged_args()), |text: Seq<char>|
        then(run_git(rs, 1, dir, untracked_list_args()), |u: Seq<char>|
            map_done(untracked_from(rs, 2, dir, lines(u), 0), |extra: Seq<FileV>| parse_spec(text) + extra)))
}

pub open spec fn first_file(fs: Seq<FileV>) -> Option<FileV> {
    if fs.len() > 0 { Some(fs[0]) } else { None }
}

/// One file's unstaged diff: `git diff -- <path>`, else the file as untracked.
pub open spec fn file_unstaged_spec(rs: Seq<ReplyV>, dir: Seq<char>, path: Seq<char>) -> Outcome<Option<FileV>> {
    then(run_git(rs, 0, dir, unstaged_args() + seq!["--"@, path]), |text: Seq<char>|
        match first_file(parse_spec(text)) {
            Some(f) => Outcome::Done(Some(f)),
            None => map_done(untracked_at(rs, 1, dir, path), |p: (Option<FileV>, int)| p.0),
        })
}

/// One file's diff against HEAD: `git diff HEAD -- <path>`; with none, a tracked file has no
/// change and an untracked one is wholly added.
pub open spec fn vs_head_spec(rs: Seq<ReplyV>, dir: Seq<char>, path: Seq<char>) -> Outcome<Option<FileV>> {
    then(run_git(rs, 0, dir, diff_head() + seq!["diff"@, "HEAD"@, "--no-color"@, "--"@, path]), |text: Seq<char>|
        match first_file(parse_spec(text)) {
            Some(f) => Outcome::Done(Some(f)),
            None => then(run_checked(rs, 1, dir, seq!["ls-files"@, "--error-unmatch"@, "--"@, path]), |o: GitOutV|
                if o.success {
                    Outcome::Done(None)
                } else {
                    map_done(untracked_at(rs, 2, dir, path), |p: (Option<FileV>, int)| p.0)
                }),
        })
}

pub open spec fn apply_args(reverse: bool) -> Seq<Seq<char>> {
    seq!["apply"@, "--cached"@] + if reverse { seq!["-R"@] } else { Seq::empty() }
}

/// `git apply --cached [-R]` fed `patch`.
pub open spec fn apply_spec(rs: Seq<ReplyV>, dir: Seq<char>, patch: Seq<char>, reverse: bool) -> Outcome<()> {
    map_done(git_reply(rs, 0, git_req(dir, apply_args(reverse), Seq::empty(), Some(patch), false), true), |o: GitOutV| ())
}

pub open spec fn show_args(sha: Seq<char>) -> Seq<Seq<char>> {
    diff_head() + seq!["show"@, "--no-color"@, "--format="@, sha]
}

pub open spec fn too_large_msg(bytes: nat) -> Seq<char> {
    "文件过大（"@ + decimal(bytes / 1024) + " KB），请在命令行查看"@
}

/// A file at a revision (`git show <rev>:<path>`); over 1 MB (by `cat-file -s`) it is refused.
pub open spec fn cat_spec(rs: Seq<ReplyV>, dir: Seq<char>, revision: Seq<char>, path: Seq<char>) -> Outcome<Seq<char>> {
    let spec = revision + ":"@ + path;
    then(run_checked(rs, 0, dir, seq!["cat-file"@, "-s"@, spec]), |o: GitOutV|
        if o.success && parse_unsigned(trim(o.stdout), u64::MAX as nat) is Some && parse_unsigned(trim(o.stdout), u64::MAX as nat).unwrap() > 1_000_000 {
            Outcome::Fail(ErrorV::Precondition(too_large_msg(parse_unsigned(trim(o.stdout), u64::MAX as nat).unwrap())))
        } else {
            run_git(rs, 1, dir, seq!["show"@, spec])
        })
}

/// The working-tree sizes of `files[i..]` (from reply `k`); `None` where it is unknown.
pub open spec fn sizes_from(rs: Seq<ReplyV>, k: int, dir: Seq<char>, files: Seq<FileV>, i: int) -> Outcome<Seq<Option<u64>>>
    decreases files.len() - i,
{
    if i < 0 || i >= files.len() {
        Outcome::Done(Seq::empty())
    } else {
        let size = match io_reply(rs, k, RequestV::FileSize(path_join(dir, files[i].path))) {
            Outcome::Ask(q) => Outcome::Ask(q),
            Outcome::Fail(_) => Outcome::Done(None),
            Outcome::Done(ReplyV::Size(n)) => Outcome::Done(Some(n)),
            Outcome::Done(_) => Outcome::Done(None),
        };
        match size {
            Outcome::Ask(q) => Outcome::Ask(q),
            Outcome::Fail(e) => Outcome::Fail(e),
            Outcome::Done(sz) => match sizes_from(rs, k + 1, dir, files, i + 1) {
                Outcome::Ask(q) => Outcome::Ask(q),
                Outcome::Fail(e) => Outcome::Fail(e),
                Outcome::Done(rest) => Outcome::Done(seq![sz] + rest),
            },
        }
    }
}

/// The pre-commit check: the staged diff, the working-tree size of each staged file, then
/// the warnings.
pub open spec fn precommit_spec(rs: Seq<ReplyV>, dir: Seq<char>) -> Outcome<Seq<WarnV>> {
    then(run_git(rs, 0, dir, cached_args()), |text: Seq<char>| {
        let files = parse_spec(text);
        map_done(sizes_from(rs, 1, dir, files, 0), |sz: Seq<Option<u64>>| report_spec(files, sz, files.len() as int))
    })
}

fn diff_head_exec() -> (r: Vec<String>)
    ensures
        strs(r@) == diff_head(),
{
    let r = vec![s("-c"), s("diff.noprefix=false"), s("-c"), s("diff.mnemonicprefix=false")];
    assert(strs(r@) =~= diff_head());
    r
}

fn with_tail(head: Vec<String>, tail: Vec<String>) -> (r: Vec<String>)
    ensures
        strs(r@) == strs(head@) + strs(tail@),
{
    let mut h = head;
    crate::repo::push_all(&mut h, tail.as_slice());
    h
}

fn unstaged_args_exec() -> (r: Vec<String>)
    ensures
        strs(r@) == unstaged_args(),
{
    let t = vec![s("diff"), s("--no-color")];
    assert(strs(t@) =~= seq!["diff"@, "--no-color"@]);
    with_tail(diff_head_exec(), t)
}

fn cached_args_exec() -> (r: Vec<String>)
    ensures
        strs(r@) == cached_args(),
{
    let t = vec![s("diff"), s("--cached"), s("--no-color")];
    assert(strs(t@) =~= seq!["diff"@, "--cached"@, "--no-color"@]);
    with_tail(diff_head_exec(), t)
}

fn first_of(fs: Vec<FileDiff>) -> (r: Option<FileDiff>)
    ensures
        opt_file(r) == first_file(files_view(fs@)),
{
    let mut fs = fs;
    if fs.len() > 0 {
        assert(files_view(fs@)[0] == fs@[0].view());
        Some(fs.swap_remove(0))
    } else {
        None
    }
}

impl Repo {
    /// An untracked file as a wholly added diff (reply `k`); `None` if it cannot be read.
    pub fn untracked_file(&self, replies: &[Reply], k: usize, path: &str) -> (r: Flow<(Option<FileDiff>, usize)>)
        ensures
            flow_view(r, |p: (Option<FileDiff>, usize)| (opt_file(p.0), p.1 as int)) == untracked_at(replies_view(replies@), k as int, self.dir(), path@),
    {
        let full = crate::repo::join_any(self.workdir(), path);
        match crate::repo::io_flow(replies, k, Request::ReadBytes(full)) {
            Flow::Ask(q) => Flow::Ask(q),
            Flow::Fail(_) => Flow::Got((None, k + 1)),
            Flow::Got(Reply::Bytes(b)) => Flow::Got((Some(crate::hunk::untracked_diff(path, b.as_slice())), k + 1)),
            Flow::Got(_) => Flow::Got((None, k + 1)),
        }
    }

    fn untracked_from(&self, replies: &[Reply], k: usize, paths: &Vec<Vec<char>>, i: usize) -> (r: Flow<Vec<FileDiff>>)
        requires
            i <= paths.len(),
        ensures
            flow_view(r, |v: Vec<FileDiff>| files_view(v@)) == untracked_from(replies_view(replies@), k as int, self.dir(), views(paths@), i as int),
        decreases paths.len() - i,
    {
        if i >= paths.len() {
            let v: Vec<FileDiff> = Vec::new();
            assert(files_view(v@) =~= Seq::<FileV>::empty());
            return Flow::Got(v);
        }
        assert(views(paths@)[i as int] == paths@[i as int]@);
        let p = crate::text::string_of(&paths[i]);
        let (f, k2) = match self.untracked_file(replies, k, p.as_str()) {
            Flow::Ask(q) => {
                return Flow::Ask(q);
            },
            Flow::Fail(e) => {
                return Flow::Fail(e);
            },
            Flow::Got(x) => x,
        };
        match self.untracked_from(replies, k2, paths, i + 1) {
            Flow::Ask(q) => Flow::Ask(q),
            Flow::Fail(e) => Flow::Fail(e),
            Flow::Got(rest) => match f {
                Some(fd) => {
                    let mut v: Vec<FileDiff> = Vec::new();
                    v.push(fd);
                    let mut rest = rest;
                    let ghost rv = files_view(rest@);
                    v.append(&mut rest);
                    assert(files_view(v@) =~= seq![fd.view()] + rv);
                    Flow::Got(v)
                },
                None => Flow::Got(rest),
            },
        }
    }

    /// The unstaged changes (working tree against index) as structured diffs; untracked
    /// files come last, as wholly added diffs.
    pub fn unstaged_diff(&self, replies: &[Reply]) -> (r: Step<Vec<FileDiff>>)
        ensures
            step_view(r, |v: Vec<FileDiff>| files_view(v@)) == unstaged_spec(replies_view(replies@), self.dir()),
    {
        let text = match self.git(replies, 0, unstaged_args_exec()) {
            Flow::Ask(q) => {
                return Step::Ask(q);
            },
            Flow::Fail(e) => {
                return Step::Done(Err(e));
            },
            Flow::Got(t) => t,
        };
        let mut files = crate::hunk::parse(text.as_str());
        let a2 = vec![s("-c"), s("core.quotepath=false"), s("ls-files"), s("--others"), s("--exclude-standard")];
        assert(strs(a2@) =~= untracked_list_args());
        let u = match self.git(replies, 1, a2) {
            Flow::Ask(q) => {
                return Step::Ask(q);
            },
            Flow::Fail(e) => {
                return Step::Done(Err(e));
            },
            Flow::Got(t) => t,
        };
        let paths = crate::text::lines_of(&crate::text::chars_of(u.as_str()));
        match self.untracked_from(replies, 2, &paths, 0) {
            Flow::Ask(q) => Step::Ask(q),
            Flow::Fail(e) => Step::Done(Err(e)),
            Flow::Got(extra) => {
                let ghost f0 = files_view(files@);
                let mut extra = extra;
                let ghost ev = files_view(extra@);
                files.append(&mut extra);
                assert(files_view(files@) =~= f0 + ev);
                Step::Done(Ok(files))
            },
        }
    }

    /// The staged changes (index against HEAD) as structured diffs.
    pub fn staged_diff(&self, replies: &[Reply]) -> (r: Step<Vec<FileDiff>>)
        ensures
            step_view(r, |v: Vec<FileDiff>| files_view(v@)) == map_done(run_git(replies_view(replies@), 0, self.dir(), cached_args()), |t: Seq<char>| parse_spec(t)),
    {
        match self.git(replies, 0, cached_args_exec()) {
            Flow::Ask(q) => Step::Ask(q),
            Flow::Fail(e) => Step::Done(Err(e)),
            Flow::Got(t) => Step::Done(Ok(crate::hunk::parse(t.as_str()))),
        }
    }

    /// The raw text of the staged diff (for a generated commit message, for instance).
    pub fn staged_diff_text(&self, replies: &[Reply]) -> (r: Step<String>)
        ensures
            step_view(r, |t: String| t@) == run_git(replies_view(replies@), 0, self.dir(), cached_args()),
    {
        self.git_text(replies, cached_args_exec())
    }

    /// One file's unstaged diff (loaded lazily); an untracked file is wholly added; `None`
    /// when the file has no unstaged change.
    pub fn file_unstaged_diff(&self, file: &str, replies: &[Reply]) -> (r: Step<Option<FileDiff>>)
        ensures
            step_view(r, |o: Option<FileDiff>| opt_file(o)) == file_unstaged_spec(replies_view(replies@), self.dir(), file@),
    {
        let t = vec![s("--"), s(file)];
        assert(strs(t@) =~= seq!["--"@, file@]);
        let text = match self.git(replies, 0, with_tail(unstaged_args_exec(), t)) {
            Flow::Ask(q) => {
                return Step::Ask(q);
            },
            Flow::Fail(e) => {
                return Step::Done(Err(e));
            },
            Flow::Got(t) => t,
        };
        match first_of(crate::hunk::parse(text.as_str())) {
            Some(f) => Step::Done(Ok(Some(f))),
            None => match self.untracked_file(replies, 1, file) {
                Flow::Ask(q) => Step::Ask(q),
                Flow::Fail(e) => Step::Done(Err(e)),
                Flow::Got((o, _)) => Step::Done(Ok(o)),
            },
        }
    }

    /// One file's staged diff; `None` when it has no staged change.
    pub fn file_staged_diff(&self, file: &str, replies: &[Reply]) -> (r: Step<Option<FileDiff>>)
        ensures
            step_view(r, |o: Option<FileDiff>| opt_file(o)) == map_done(
                run_git(replies_view(replies@), 0, self.dir(), cached_args() + seq!["--"@, file@]),
                |t: Seq<char>| first_file(parse_spec(t)),
            ),
    {
        let t = vec![s("--"), s(file)];
        assert(strs(t@) =~= seq!["--"@, file@]);
        match self.git(replies, 0, with_tail(cached_args_exec(), t)) {
            Flow::Ask(q) => Step::Ask(q),
            Flow::Fail(e) => Step::Done(Err(e)),
            Flow::Got(text) => Step::Done(Ok(first_of(crate::hunk::parse(text.as_str())))),
        }
    }

    /// One working-tree file's diff against HEAD (for change marks in a file viewer); a
    /// tracked file without change gives `None`, an untracked one is wholly added.
    pub fn file_diff_vs_head(&self, file: &str, replies: &[Reply]) -> (r: Step<Option<FileDiff>>)
        ensures
            step_view(r, |o: Option<FileDiff>| opt_file(o)) == vs_head_spec(replies_view(replies@), self.dir(), file@),
    {
        let t = vec![s("diff"), s("HEAD"), s("--no-color"), s("--"), s(file)];
        assert(strs(t@) =~= seq!["diff"@, "HEAD"@, "--no-color"@, "--"@, file@]);
        let text = match self.git(replies, 0, with_tail(diff_head_exec(), t)) {
            Flow::Ask(q) => {
                return Step::Ask(q);
            },
            Flow::Fail(e) => {
                return Step::Done(Err(e));
            },
            Flow::Got(t) => t,
        };
        match first_of(crate::hunk::parse(text.as_str())) {
            Some(f) => {
                return Step::Done(Ok(Some(f)));
            },
            None => {},
        }
        let a = vec![s("ls-files"), s("--error-unmatch"), s("--"), s(file)];
        assert(strs(a@) =~= seq!["ls-files"@, "--error-unmatch"@, "--"@, file@]);
        let o = match self.git_checked(replies, 1, a) {
            Flow::Ask(q) => {
                return Step::Ask(q);
            },
            Flow::Fail(e) => {
                return Step::Done(Err(e));
            },
            Flow::Got(o) => o,
        };
        if o.success {
            return Step::Done(Ok(None));
        }
        match self.untracked_file(replies, 2, file) {
            Flow::Ask(q) => Step::Ask(q),
            Flow::Fail(e) => Step::Done(Err(e)),
            Flow::Got((o, _)) => Step::Done(Ok(o)),
        }
    }

    fn apply_cached(&self, patch: String, reverse: bool, replies: &[Reply]) -> (r: Step<()>)
        ensures
            step_view(r, |u: ()| u) == apply_spec(replies_view(replies@), self.dir(), patch@, reverse),
    {
        let mut args = vec![s("apply"), s("--cached")];
        if reverse {
            args.push(s("-R"));
        }
        assert(strs(args@) =~= apply_args(reverse));
        match self.git_stdin(replies, 0, args, patch) {
            Flow::Ask(q) => Step::Ask(q),
            Flow::Fail(e) => Step::Done(Err(e)),
            Flow::Got(_) => Step::Done(Ok(())),
        }
    }

    /// Stages one hunk of an unstaged diff: its patch goes to `git apply --cached`.
    pub fn stage_hunk(&self, file: &FileDiff, hunk: &Hunk, replies: &[Reply]) -> (r: Step<()>)
        ensures
            step_view(r, |u: ()| u) == apply_spec(replies_view(replies@), self.dir(), patch_spec(file.view(), hunk.view()), false),
    {
        self.apply_cached(crate::hunk::patch_of(file, hunk), false, replies)
    }

    /// Unstages one hunk of a staged diff (`git apply --cached -R`).
    pub fn unstage_hunk(&self, file: &FileDiff, hunk: &Hunk, replies: &[Reply]) -> (r: Step<()>)
        ensures
            step_view(r, |u: ()| u) == apply_spec(replies_view(replies@), self.dir(), patch_spec(file.view(), hunk.view()), true),
    {
        self.apply_cached(crate::hunk::patch_of(file, hunk), true, replies)
    }

    /// Stages the selected lines (indices into `hunk.lines`) of a hunk; nothing for none.
    pub fn stage_lines(&self, file: &FileDiff, hunk: &Hunk, selected: &[usize], replies: &[Reply]) -> (r: Step<()>)
        requires
            hunk.lines.len() <= u32::MAX,
        ensures
            step_view(r, |u: ()| u) == if selected@.len() == 0 {
                Outcome::Done(())
            } else {
                apply_spec(replies_view(replies@), self.dir(), partial_patch_spec(file.view(), hunk.view(), selected@), false)
            },
    {
        if selected.len() == 0 {
            return Step::Done(Ok(()));
        }
        self.apply_cached(crate::hunk::partial_patch(file, hunk, selected), false, replies)
    }

    /// Unstages the selected lines of a hunk of the staged diff; nothing for none.
    pub fn unstage_lines(&self, file: &FileDiff, hunk: &Hunk, selected: &[usize], replies: &[Reply]) -> (r: Step<()>)
        requires
            hunk.lines.len() <= u32::MAX,
        ensures
            step_view(r, |u: ()| u) == if selected@.len() == 0 {
                Outcome::Done(())
            } else {
                apply_spec(replies_view(replies@), self.dir(), partial_patch_spec(file.view(), hunk.view(), selected@), true)
            },
    {
        if selected.len() == 0 {
            return Step::Done(Ok(()));
        }
        self.apply_cached(crate::hunk::partial_patch(file, hunk, selected), true, replies)
    }

    /// The changes of a commit (against its first parent) as structured diffs.
    pub fn commit_files(&self, sha: &str, replies: &[Reply]) -> (r: Step<Vec<FileDiff>>)
        ensures
            step_view(r, |v: Vec<FileDiff>| files_view(v@)) == map_done(run_git(replies_view(replies@), 0, self.dir(), show_args(sha@)), |t: Seq<char>| parse_spec(t)),
    {
        let t = vec![s("show"), s("--no-color"), s("--format="), s(sha)];
        assert(strs(t@) =~= seq!["show"@, "--no-color"@, "--format="@, sha@]);
        match self.git(replies, 0, with_tail(diff_head_exec(), t)) {
            Flow::Ask(q) => Step::Ask(q),
            Flow::Fail(e) => Step::Done(Err(e)),
            Flow::Got(text) => Step::Done(Ok(crate::hunk::parse(text.as_str()))),
        }
    }

    /// One file's diff in a commit; `None` when the commit did not change it.
    pub fn commit_file_diff(&self, sha: &str, file_path: &str, replies: &[Reply]) -> (r: Step<Option<FileDiff>>)
        ensures
            step_view(r, |o: Option<FileDiff>| opt_file(o)) == map_done(
                run_git(replies_view(replies@), 0, self.dir(), show_args(sha@) + seq!["--"@, file_path@]),
                |t: Seq<char>| first_file(parse_spec(t)),
            ),
    {
        let t = vec![s("show"), s("--no-color"), s("--format="), s(sha), s("--"), s(file_path)];
        assert(strs(t@) =~= seq!["show"@, "--no-color"@, "--format="@, sha@, "--"@, file_path@]);
        let a = with_tail(diff_head_exec(), t);
        assert(strs(a@) =~= show_args(sha@) + seq!["--"@, file_path@]);
        match self.git(replies, 0, a) {
            Flow::Ask(q) => Step::Ask(q),
            Flow::Fail(e) => Step::Done(Err(e)),
            Flow::Got(text) => Step::Done(Ok(first_of(crate::hunk::parse(text.as_str())))),
        }
    }

    /// The files in which a branch (or any revision) differs from the working tree.
    pub fn diff_with_workdir(&self, rev: &str, replies: &[Reply]) -> (r: Step<Vec<FileDiff>>)
        ensures
            step_view(r, |v: Vec<FileDiff>| files_view(v@)) == map_done(
                run_git(replies_view(replies@), 0, self.dir(), diff_head() + seq!["diff"@, "--no-color"@, rev@]),
                |t: Seq<char>| parse_spec(t),
            ),
    {
        let t = vec![s("diff"), s("--no-color"), s(rev)];
        assert(strs(t@) =~= seq!["diff"@, "--no-color"@, rev@]);
        match self.git(replies, 0, with_tail(diff_head_exec(), t)) {
            Flow::Ask(q) => Step::Ask(q),
            Flow::Fail(e) => Step::Done(Err(e)),
            Flow::Got(text) => Step::Done(Ok(crate::hunk::parse(text.as_str()))),
        }
    }

    /// A file's whole text at a revision, for a file viewer; over 1 MB it is refused (to be
    /// looked at on the command line).
    pub fn cat_file_at_rev(&self, revision: &str, path: &str, replies: &[Reply]) -> (r: Step<String>)
        ensures
            step_view(r, |t: String| t@) == cat_spec(replies_view(replies@), self.dir(), revision@, path@),
    {
        let mut sp = crate::text::chars_of(revision);
        crate::text::push_str(&mut sp, ":");
        crate::text::push_str(&mut sp, path);
        let spec = crate::text::string_of(&sp);
        let a = vec![s("cat-file"), s("-s"), spec.clone()];
        assert(strs(a@) =~= seq!["cat-file"@, "-s"@, revision@ + ":"@ + path@]);
        let o = match self.git_checked(replies, 0, a) {
            Flow::Ask(q) => {
                return Step::Ask(q);
            },
            Flow::Fail(e) => {
                return Step::Done(Err(e));
            },
            Flow::Got(o) => o,
        };
        if o.success {
            let t = crate::text::trim_vec(&crate::text::chars_of(o.stdout.as_str()));
            match crate::text::parse_unsigned_chars(&t, u64::MAX) {
                Some(bytes) => {
                    if bytes > 1_000_000 {
                        let mut m = crate::text::chars_of("文件过大（");
                        crate::text::push_decimal(&mut m, bytes / 1024);
                        crate::text::push_str(&mut m, " KB），请在命令行查看");
                        return Step::Done(Err(Error::Precondition(crate::text::string_of(&m))));
                    }
                },
                None => {},
            }
        }
        let a2 = vec![s("show"), spec];
        assert(strs(a2@) =~= seq!["show"@, revision@ + ":"@ + path@]);
        match self.git(replies, 1, a2) {
            Flow::Ask(q) => Step::Ask(q),
            Flow::Fail(e) => Step::Done(Err(e)),
            Flow::Got(t) => Step::Done(Ok(t)),
        }
    }

    fn sizes_from(&self, replies: &[Reply], k: usize, files: &Vec<FileDiff>, i: usize) -> (r: Flow<Vec<Option<u64>>>)
        requires
            i <= files.len(),
        ensures
            flow_view(r, |v: Vec<Option<u64>>| v@) == sizes_from(replies_view(replies@), k as int, self.dir(), files_view(files@), i as int),
            r is Got ==> r->0@.len() == files.len() - i,
        decreases files.len() - i,
    {
        if i >= files.len() {
            return Flow::Got(Vec::new());
        }
        assert(files_view(files@)[i as int] == files@[i as int].view());
        let full = crate::repo::join_any(self.workdir(), files[i].path.as_str());
        let sz = match crate::repo::io_flow(replies, k, Request::FileSize(full)) {
            Flow::Ask(q) => {
                return Flow::Ask(q);
            },
            Flow::Fail(_) => None,
            Flow::Got(Reply::Size(n)) => Some(n),
            Flow::Got(_) => None,
        };
        match self.sizes_from(replies, k + 1, files, i + 1) {
            Flow::Ask(q) => Flow::Ask(q),
            Flow::Fail(e) => Flow::Fail(e),
            Flow::Got(rest) => {
                let mut v: Vec<Option<u64>> = Vec::new();
                v.push(sz);
                let mut rest = rest;
                let ghost rv = rest@;
                v.append(&mut rest);
                assert(v@ =~= seq![sz] + rv);
                Flow::Got(v)
            },
        }
    }

    /// Checks the staged content before a commit: secrets, conflict markers, large files,
    /// debug leftovers, TODOs.
    pub fn precommit_check(&self, replies: &[Reply]) -> (r: Step<PrecommitReport>)
        ensures
            step_view(r, |p: PrecommitReport| warns_view(p.warnings@)) == precommit_spec(replies_view(replies@), self.dir()),
    {
        let text = match self.git(replies, 0, cached_args_exec()) {
            Flow::Ask(q) => {
                return Step::Ask(q);
            },
            Flow::Fail(e) => {
                return Step::Done(Err(e));
            },
            Flow::Got(t) => t,
        };
        let files = crate::hunk::parse(text.as_str());
        match self.sizes_from(replies, 1, &files, 0) {
            Flow::Ask(q) => Step::Ask(q),
            Flow::Fail(e) => Step::Done(Err(e)),
            Flow::Got(sizes) => Step::Done(Ok(crate::precommit::precommit_warnings(files.as_slice(), sizes.as_slice()))),
        }
    }
}

} // verus!
