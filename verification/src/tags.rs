//! Tags and the HEAD reflog.
use vstd::prelude::*;
use crate::text::{split_char, lines, decimal, views};
use crate::repo::{Repo, Reply, Step, Flow, Outcome, step_view, map_done, run_git, replies_view, strs, s, unit_spec};

verus! {

/// A tag.
#[derive(Debug, Clone)]
pub struct TagInfo {
    pub name: String,
    /// Short SHA of the commit (an annotated tag is followed to its commit).
    pub target: String,
    /// Subject of an annotated tag's message; for a lightweight tag, of its commit.
    pub message: String,
}

/// The lines of `ls[..n]` with at least `nf` NUL-separated fields, as their fields.
pub open spec fn records_min(ls: Seq<Seq<char>>, nf: nat, n: int) -> Seq<Seq<Seq<char>>>
    decreases n,
{
    if n <= 0 {
        Seq::empty()
    } else {
        records_min(ls, nf, n - 1) + if split_char(ls[n - 1], '\0').len() >= nf {
            seq![split_char(ls[n - 1], '\0')]
        } else {
            Seq::empty()
        }
    }
}

pub open spec fn tags_view(v: Seq<TagInfo>) -> Seq<(Seq<char>, Seq<char>, Seq<char>)> {
    v.map_values(|t: TagInfo| (t.name@, t.target@, t.message@))
}

/// A tag from `%(refname:short)\0%(objectname:short)\0%(*objectname:short)\0%(contents:subject)`:
/// the dereferenced object when there is one (annotated tag), else the object.
pub open spec fn tag_of(f: Seq<Seq<char>>) -> (Seq<char>, Seq<char>, Seq<char>) {
    (f[0], if f[2].len() == 0 { f[1] } else { f[2] }, f[3])
}

pub open spec fn parse_tags_spec(out: Seq<char>) -> Seq<(Seq<char>, Seq<char>, Seq<char>)> {
    let ls = lines(out);
    records_min(ls, 4, ls.len() as int).map_values(|f: Seq<Seq<char>>| tag_of(f))
}

/// Parses the `for-each-ref` listing of tags.
pub fn parse_tags(out: &str) -> (r: Vec<TagInfo>)
    ensures
        tags_view(r@) == parse_tags_spec(out@),
{
    let ls = crate::text::lines_of(&crate::text::chars_of(out));
    let ghost lv = views(ls@);
    let mut r: Vec<TagInfo> = Vec::new();
    let mut i: usize = 0;
    assert(tags_view(r@) =~= records_min(lv, 4, 0).map_values(|f: Seq<Seq<char>>| tag_of(f)));
    while i < ls.len()
        invariant
            i <= ls.len(),
            lv == views(ls@),
            lv == lines(out@),
            tags_view(r@) == records_min(lv, 4, i as int).map_values(|f: Seq<Seq<char>>| tag_of(f)),
        decreases ls.len() - i,
    {
        assert(lv[i as int] == ls@[i as int]@);
        let p = crate::text::split_on(&ls[i], '\0');
        let ghost prev = records_min(lv, 4, i as int);
        if p.len() >= 4 {
            let target = if p[2].len() == 0 { crate::text::string_of(&p[1]) } else { crate::text::string_of(&p[2]) };
            let t = TagInfo { name: crate::text::string_of(&p[0]), target, message: crate::text::string_of(&p[3]) };
            let ghost before = tags_view(r@);
            r.push(t);
            assert(views(p@)[0] == p@[0]@ && views(p@)[1] == p@[1]@ && views(p@)[2] == p@[2]@ && views(p@)[3] == p@[3]@);
            assert(tags_view(r@) =~= before.push(tag_of(views(p@))));
            assert(records_min(lv, 4, i + 1) == prev.push(views(p@)));
            assert(records_min(lv, 4, i + 1).map_values(|f: Seq<Seq<char>>| tag_of(f)) =~= prev.map_values(|f: Seq<Seq<char>>| tag_of(f)).push(tag_of(views(p@))));
        } else {
            assert(records_min(lv, 4, i + 1) =~= prev);
        }
        i = i + 1;
    }
    r
}

pub open spec fn list_tags_args() -> Seq<Seq<char>> {
    seq!["for-each-ref"@, "--sort=-creatordate"@, "--format=%(refname:short)%00%(objectname:short)%00%(*objectname:short)%00%(contents:subject)"@, "refs/tags"@]
}

/// `git tag [-a -m <message>] <name> [<target>]`.
pub open spec fn create_tag_args(name: Seq<char>, target: Option<Seq<char>>, message: Option<Seq<char>>) -> Seq<Seq<char>> {
    seq!["tag"@] + (match message {
        Some(m) => seq!["-a"@, "-m"@, m],
        None => Seq::empty(),
    }) + seq![name] + (match target {
        Some(t) => seq![t],
        None => Seq::empty(),
    })
}

pub open spec fn opt_str_ref(o: Option<&str>) -> Option<Seq<char>> {
    match o {
        Some(x) => Some(x@),
        None => None,
    }
}

// ───────────────────────── reflog ─────────────────────────

/// One HEAD reflog entry.
#[derive(Debug, Clone)]
pub struct ReflogEntry {
    /// Selector such as `HEAD@{0}`.
    pub selector: String,
    pub sha: String,
    pub full_sha: String,
    /// The reflog message (`%gs`): `commit: ...`, `reset: moving to ...`.
    pub action: String,
}

pub open spec fn reflog_view(v: Seq<ReflogEntry>) -> Seq<(Seq<char>, Seq<char>, Seq<char>, Seq<char>)> {
    v.map_values(|e: ReflogEntry| (e.full_sha@, e.sha@, e.selector@, e.action@))
}

/// Entries from lines `%H\0%h\0%gd\0%gs` (lines of another shape are skipped).
pub open spec fn parse_reflog_spec(out: Seq<char>) -> Seq<(Seq<char>, Seq<char>, Seq<char>, Seq<char>)> {
    crate::log::records(out, 4).map_values(|f: Seq<Seq<char>>| (f[0], f[1], f[2], f[3]))
}

pub fn parse_reflog(out: &str) -> (r: Vec<ReflogEntry>)
    ensures
        reflog_view(r@) == parse_reflog_spec(out@),
{
    let ls = crate::text::lines_of(&crate::text::chars_of(out));
    let ghost lv = views(ls@);
    let mut r: Vec<ReflogEntry> = Vec::new();
    let mut i: usize = 0;
    assert(reflog_view(r@) =~= crate::log::records_upto(lv, 4, 0).map_values(|f: Seq<Seq<char>>| (f[0], f[1], f[2], f[3])));
    while i < ls.len()
        invariant
            i <= ls.len(),
            lv == views(ls@),
            lv == lines(out@),
            reflog_view(r@) == crate::log::records_upto(lv, 4, i as int).map_values(|f: Seq<Seq<char>>| (f[0], f[1], f[2], f[3])),
        decreases ls.len() - i,
    {
        assert(lv[i as int] == ls@[i as int]@);
        let p = crate::text::split_on(&ls[i], '\0');
        let ghost prev = crate::log::records_upto(lv, 4, i as int);
        if p.len() == 4 {
            let e = ReflogEntry {
                full_sha: crate::text::string_of(&p[0]),
                sha: crate::text::string_of(&p[1]),
                selector: crate::text::string_of(&p[2]),
                action: crate::text::string_of(&p[3]),
            };
            let ghost before = reflog_view(r@);
            r.push(e);
            let ghost f = views(p@);
            assert(f[0] == p@[0]@ && f[1] == p@[1]@ && f[2] == p@[2]@ && f[3] == p@[3]@);
            assert(reflog_view(r@) =~= before.push((f[0], f[1], f[2], f[3])));
            assert(crate::log::records_upto(lv, 4, i + 1) == prev.push(f));
            assert(crate::log::records_upto(lv, 4, i + 1).map_values(|f: Seq<Seq<char>>| (f[0], f[1], f[2], f[3])) =~= prev.map_values(|f: Seq<Seq<char>>| (f[0], f[1], f[2], f[3])).push((f[0], f[1], f[2], f[3])));
        } else {
            assert(crate::log::records_upto(lv, 4, i + 1) =~= prev);
        }
        i = i + 1;
    }
    r
}

pub fn decimal_string(n: u64) -> (r: String)
    ensures
        r@ == decimal(n as nat),
{
    let mut v: Vec<char> = Vec::new();
    crate::text::push_decimal(&mut v, n);
    assert(v@ =~= decimal(n as nat));
    crate::text::string_of(&v)
}

impl Repo {
    /// Lists the tags, newest first.
    pub fn tags(&self, replies: &[Reply]) -> (r: Step<Vec<TagInfo>>)
        ensures
            step_view(r, |v: Vec<TagInfo>| tags_view(v@)) == map_done(run_git(replies_view(replies@), 0, self.dir(), list_tags_args()), |o: Seq<char>| parse_tags_spec(o)),
    {
        let args = vec![s("for-each-ref"), s("--sort=-creatordate"), s("--format=%(refname:short)%00%(objectname:short)%00%(*objectname:short)%00%(contents:subject)"), s("refs/tags")];
        assert(strs(args@) =~= list_tags_args());
        match self.git(replies, 0, args) {
            Flow::Ask(q) => Step::Ask(q),
            Flow::Fail(e) => Step::Done(Err(e)),
            Flow::Got(o) => Step::Done(Ok(parse_tags(o.as_str()))),
        }
    }

    /// Creates a tag, on HEAD unless a target is given; annotated when a message is given.
    pub fn create_tag(&self, name: &str, target: Option<&str>, message: Option<&str>, replies: &[Reply]) -> (r: Step<()>)
        ensures
            step_view(r, |u: ()| u) == unit_spec(replies_view(replies@), self.dir(), create_tag_args(name@, opt_str_ref(target), opt_str_ref(message))),
    {
        let mut args = vec![s("tag")];
        match message {
            Some(m) => {
                args.push(s("-a"));
                args.push(s("-m"));
                args.push(s(m));
            },
            None => {},
        }
        args.push(s(name));
        match target {
            Some(t) => {
                args.push(s(t));
            },
            None => {},
        }
        assert(strs(args@) =~= create_tag_args(name@, opt_str_ref(target), opt_str_ref(message)));
        self.git_unit(replies, args)
    }

    /// Deletes a tag.
    pub fn delete_tag(&self, name: &str, replies: &[Reply]) -> (r: Step<()>)
        ensures
            step_view(r, |u: ()| u) == unit_spec(replies_view(replies@), self.dir(), seq!["tag"@, "-d"@, name@]),
    {
        let args = vec![s("tag"), s("-d"), s(name)];
        assert(strs(args@) =~= seq!["tag"@, "-d"@, name@]);
        self.git_unit(replies, args)
    }

    /// Pushes one tag to the default remote (`origin`).
    pub fn push_tag(&self, name: &str, replies: &[Reply]) -> (r: Step<()>)
        ensures
            step_view(r, |u: ()| u) == unit_spec(replies_view(replies@), self.dir(), seq!["push"@, "origin"@, "refs/tags/"@ + name@]),
    {
        let mut t = crate::text::chars_of("refs/tags/");
        crate::text::push_str(&mut t, name);
        let args = vec![s("push"), s("origin"), crate::text::string_of(&t)];
        assert(strs(args@) =~= seq!["push"@, "origin"@, "refs/tags/"@ + name@]);
        self.git_unit(replies, args)
    }

    /// Pushes every local tag to the default remote (`origin`).
    pub fn push_all_tags(&self, replies: &[Reply]) -> (r: Step<()>)
        ensures
            step_view(r, |u: ()| u) == unit_spec(replies_view(replies@), self.dir(), seq!["push"@, "origin"@, "--tags"@]),
    {
        let args = vec![s("push"), s("origin"), s("--tags")];
        assert(strs(args@) =~= seq!["push"@, "origin"@, "--tags"@]);
        self.git_unit(replies, args)
    }

    /// The latest `max_count` HEAD reflog entries, newest first.
    pub fn reflog(&self, max_count: usize, replies: &[Reply]) -> (r: Step<Vec<ReflogEntry>>)
        ensures
            step_view(r, |v: Vec<ReflogEntry>| reflog_view(v@)) == map_done(
                run_git(replies_view(replies@), 0, self.dir(), seq!["reflog"@, "show"@, "--format=%H%x00%h%x00%gd%x00%gs"@, "-n"@, decimal(max_count as nat)]),
                |o: Seq<char>| parse_reflog_spec(o),
            ),
    {
        let args = vec![s("reflog"), s("show"), s("--format=%H%x00%h%x00%gd%x00%gs"), s("-n"), decimal_string(max_count as u64)];
        assert(strs(args@) =~= seq!["reflog"@, "show"@, "--format=%H%x00%h%x00%gd%x00%gs"@, "-n"@, decimal(max_count as nat)]);
        match self.git(replies, 0, args) {
            Flow::Ask(q) => Step::Ask(q),
            Flow::Fail(e) => Step::Done(Err(e)),
            Flow::Got(o) => Step::Done(Ok(parse_reflog(o.as_str()))),
        }
    }
}

} // verus!
