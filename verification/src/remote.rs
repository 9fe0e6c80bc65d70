//! Remotes: listing (`git remote -v`), adding, removing, changing a URL.
use vstd::prelude::*;
use crate::text::{trim, index_of, ends_with, lines};
use crate::repo::{Repo, Reply, Step, Flow, Outcome, step_view, map_done, run_git, replies_view, strs, s};

verus! {

/// A remote repository.
#[derive(Debug, Clone)]
pub struct RemoteInfo {
    pub name: String,
    /// Fetch URL.
    pub url: String,
    /// Push URL (the fetch URL unless set apart).
    pub push_url: String,
}

pub open spec fn remotes_view(v: Seq<RemoteInfo>) -> Seq<(Seq<char>, Seq<char>, Seq<char>)> {
    v.map_values(|r: RemoteInfo| (r.name@, r.url@, r.push_url@))
}

/// Index of the last `c` in `s`, or `s.len()` if there is none.
pub open spec fn last_index_of(s: Seq<char>, c: char) -> int
    decreases s.len(),
{
    if s.len() == 0 {
        0
    } else if s.last() == c {
        s.len() - 1
    } else {
        let i = last_index_of(s.drop_last(), c);
        if i == s.len() - 1 { s.len() as int } else { i }
    }
}

/// The URL of `"<url> (fetch)"`: what precedes the last space, trimmed (all of it, trimmed,
/// without a space).
pub open spec fn remote_url(rest: Seq<char>) -> Seq<char> {
    let i = last_index_of(rest, ' ');
    if i < rest.len() { trim(rest.take(i)) } else { trim(rest) }
}

pub open spec fn find_remote(v: Seq<(Seq<char>, Seq<char>, Seq<char>)>, name: Seq<char>, n: int) -> int
    decreases n,
{
    if n <= 0 {
        v.len() as int
    } else {
        let j = find_remote(v, name, n - 1);
        if j < v.len() {
            j
        } else if v[n - 1].0 == name {
            n - 1
        } else {
            v.len() as int
        }
    }
}

/// One line of `git remote -v` (`<name>\t<url> (fetch)` or `(push)`): a new remote is
/// added; a `(push)` line of a known remote sets its push URL.
pub open spec fn remote_step(v: Seq<(Seq<char>, Seq<char>, Seq<char>)>, raw: Seq<char>) -> Seq<(Seq<char>, Seq<char>, Seq<char>)> {
    let l = trim(raw);
    let t = index_of(l, '\t');
    if l.len() == 0 || t >= l.len() {
        v
    } else {
        let name = l.take(t);
        let rest = l.skip(t + 1);
        let is_push = ends_with(rest, "(push)"@);
        let url = remote_url(rest);
        let j = find_remote(v, name, v.len() as int);
        if j < v.len() {
            if is_push { v.update(j, (v[j].0, v[j].1, url)) } else { v }
        } else {
            v.push((name, if is_push { Seq::empty() } else { url }, if is_push { url } else { Seq::empty() }))
        }
    }
}

pub open spec fn remote_scan(ls: Seq<Seq<char>>, n: int) -> Seq<(Seq<char>, Seq<char>, Seq<char>)>
    decreases n,
{
    if n <= 0 {
        Seq::empty()
    } else {
        remote_step(remote_scan(ls, n - 1), ls[n - 1])
    }
}

/// An empty URL takes the other one.
pub open spec fn fill_urls(r: (Seq<char>, Seq<char>, Seq<char>)) -> (Seq<char>, Seq<char>, Seq<char>) {
    let url = if r.1.len() == 0 { r.2 } else { r.1 };
    let push = if r.2.len() == 0 { url } else { r.2 };
    (r.0, url, push)
}

pub open spec fn parse_remotes_spec(out: Seq<char>) -> Seq<(Seq<char>, Seq<char>, Seq<char>)> {
    let ls = lines(out);
    remote_scan(ls, ls.len() as int).map_values(|r: (Seq<char>, Seq<char>, Seq<char>)| fill_urls(r))
}

fn last_index_exec(s: &[char], c: char) -> (r: usize)
    ensures
        r as int == last_index_of(s@, c),
{
    let mut i = s.len();
    while i > 0
        invariant
            i <= s.len(),
            forall|k: int| i <= k < s.len() ==> s@[k] != c,
        decreases i,
    {
        if s[i - 1] == c {
            proof {
                lemma_last_index(s@, c, i as int);
            }
            return i - 1;
        }
        i = i - 1;
    }
    proof {
        lemma_last_index_none(s@, c);
    }
    s.len()
}

proof fn lemma_last_index(s: Seq<char>, c: char, i: int)
    requires
        0 < i <= s.len(),
        s[i - 1] == c,
        forall|k: int| i <= k < s.len() ==> s[k] != c,
    ensures
        last_index_of(s, c) == i - 1,
    decreases s.len(),
{
    if s.len() > i {
        lemma_last_index(s.drop_last(), c, i);
    }
}

proof fn lemma_last_index_none(s: Seq<char>, c: char)
    requires
        forall|k: int| 0 <= k < s.len() ==> s[k] != c,
    ensures
        last_index_of(s, c) == s.len(),
    decreases s.len(),
{
    if s.len() > 0 {
        lemma_last_index_none(s.drop_last(), c);
    }
}

fn find_remote_exec(v: &Vec<RemoteInfo>, name: &Vec<char>) -> (r: usize)
    ensures
        r as int == find_remote(remotes_view(v@), name@, v.len() as int),
{
    let ghost rv = remotes_view(v@);
    let mut i: usize = 0;
    while i < v.len()
        invariant
            i <= v.len(),
            rv == remotes_view(v@),
            find_remote(rv, name@, i as int) == rv.len(),
        decreases v.len() - i,
    {
        assert(rv[i as int].0 == v@[i as int].name@);
        if crate::text::eq_str(name, v[i].name.as_str()) {
            proof {
                lemma_find_remote_stable(rv, name@, i as int, v.len() as int);
            }
            return i;
        }
        i = i + 1;
    }
    i
}

proof fn lemma_find_remote_stable(v: Seq<(Seq<char>, Seq<char>, Seq<char>)>, name: Seq<char>, i: int, m: int)
    requires
        0 <= i < v.len(),
        find_remote(v, name, i) == v.len(),
        v[i].0 == name,
        i < m,
    ensures
        find_remote(v, name, m) == i,
    decreases m,
{
    if m > i + 1 {
        lemma_find_remote_stable(v, name, i, m - 1);
    }
}

/// Parses `git remote -v`.
pub fn parse_remotes(out: &str) -> (r: Vec<RemoteInfo>)
    ensures
        remotes_view(r@) == parse_remotes_spec(out@),
{
    let ls = crate::text::lines_of(&crate::text::chars_of(out));
    let ghost lv = crate::text::views(ls@);
    let mut v: Vec<RemoteInfo> = Vec::new();
    let mut i: usize = 0;
    assert(remotes_view(v@) =~= remote_scan(lv, 0));
    while i < ls.len()
        invariant
            i <= ls.len(),
            lv == crate::text::views(ls@),
            lv == lines(out@),
            remotes_view(v@) == remote_scan(lv, i as int),
        decreases ls.len() - i,
    {
        assert(lv[i as int] == ls@[i as int]@);
        let l = crate::text::trim_vec(&ls[i]);
        let t = crate::text::find_char_from(&l, '\t', 0);
        proof {
            crate::text::lemma_index_of_from_bounds(l@, '\t', 0);
        }
        if l.len() > 0 && t < l.len() {
            let name = crate::text::slice_vec(&l, 0, t);
            let rest = crate::text::slice_vec(&l, t + 1, l.len());
            assert(name@ =~= l@.take(t as int));
            assert(rest@ =~= l@.skip(t + 1));
            let is_push = crate::text::ends_with_str(&rest, "(push)");
            let sp = last_index_exec(&rest, ' ');
            let url = if sp < rest.len() {
                let head = crate::text::slice_vec(&rest, 0, sp);
                assert(head@ =~= rest@.take(sp as int));
                crate::text::trim_vec(&head)
            } else {
                crate::text::trim_vec(&rest)
            };
            let j = find_remote_exec(&v, &name);
            let ghost before = remotes_view(v@);
            if j < v.len() {
                if is_push {
                    let r = RemoteInfo { name: v[j].name.clone(), url: v[j].url.clone(), push_url: crate::text::string_of(&url) };
                    v.set(j, r);
                    assert(remotes_view(v@) =~= before.update(j as int, (before[j as int].0, before[j as int].1, url@)));
                }
            } else {
                let empty: Vec<char> = Vec::new();
                let r = RemoteInfo {
                    name: crate::text::string_of(&name),
                    url: crate::text::string_of(if is_push { &empty } else { &url }),
                    push_url: crate::text::string_of(if is_push { &url } else { &empty }),
                };
                v.push(r);
                assert(remotes_view(v@) =~= before.push((name@, if is_push { Seq::<char>::empty() } else { url@ }, if is_push { url@ } else { Seq::<char>::empty() })));
            }
        }
        i = i + 1;
    }
    let ghost scanned = remotes_view(v@);
    let mut out_v: Vec<RemoteInfo> = Vec::new();
    let mut k: usize = 0;
    while k < v.len()
        invariant
            k <= v.len(),
            scanned == remotes_view(v@),
            remotes_view(out_v@) == scanned.take(k as int).map_values(|r: (Seq<char>, Seq<char>, Seq<char>)| fill_urls(r)),
        decreases v.len() - k,
    {
        let r = &v[k];
        assert(scanned[k as int] == (r.name@, r.url@, r.push_url@));
        let url = if r.url.as_str().is_empty() { r.push_url.clone() } else { r.url.clone() };
        let push_url = if r.push_url.as_str().is_empty() { url.clone() } else { r.push_url.clone() };
        let ghost before = remotes_view(out_v@);
        out_v.push(RemoteInfo { name: r.name.clone(), url, push_url });
        assert(remotes_view(out_v@) =~= before.push(fill_urls(scanned[k as int])));
        assert(scanned.take(k + 1).map_values(|r: (Seq<char>, Seq<char>, Seq<char>)| fill_urls(r)) =~= scanned.take(k as int).map_values(|r: (Seq<char>, Seq<char>, Seq<char>)| fill_urls(r)).push(fill_urls(scanned[k as int])));
        k = k + 1;
    }
    assert(scanned.take(v.len() as int) =~= scanned);
    out_v
}

impl Repo {
    /// Lists the remotes with their fetch and push URLs.
    pub fn list_remotes(&self, replies: &[Reply]) -> (r: Step<Vec<RemoteInfo>>)
        ensures
            step_view(r, |v: Vec<RemoteInfo>| remotes_view(v@)) == map_done(
                run_git(replies_view(replies@), 0, self.dir(), seq!["remote"@, "-v"@]),
                |o: Seq<char>| parse_remotes_spec(o),
            ),
    {
        let args = vec![s("remote"), s("-v")];
        assert(strs(args@) =~= seq!["remote"@, "-v"@]);
        match self.git(replies, 0, args) {
            Flow::Ask(q) => Step::Ask(q),
            Flow::Fail(e) => Step::Done(Err(e)),
            Flow::Got(o) => Step::Done(Ok(parse_remotes(o.as_str()))),
        }
    }

    /// Adds a remote.
    pub fn add_remote(&self, name: &str, url: &str, replies: &[Reply]) -> (r: Step<()>)
        ensures
            step_view(r, |u: ()| u) == map_done(run_git(replies_view(replies@), 0, self.dir(), seq!["remote"@, "add"@, name@, url@]), |o: Seq<char>| ()),
    {
        let args = vec![s("remote"), s("add"), s(name), s(url)];
        assert(strs(args@) =~= seq!["remote"@, "add"@, name@, url@]);
        match self.git(replies, 0, args) {
            Flow::Ask(q) => Step::Ask(q),
            Flow::Fail(e) => Step::Done(Err(e)),
            Flow::Got(_) => Step::Done(Ok(())),
        }
    }

    /// Removes a remote.
    pub fn remove_remote(&self, name: &str, replies: &[Reply]) -> (r: Step<()>)
        ensures
            step_view(r, |u: ()| u) == map_done(run_git(replies_view(replies@), 0, self.dir(), seq!["remote"@, "remove"@, name@]), |o: Seq<char>| ()),
    {
        let args = vec![s("remote"), s("remove"), s(name)];
        assert(strs(args@) =~= seq!["remote"@, "remove"@, name@]);
        match self.git(replies, 0, args) {
            Flow::Ask(q) => Step::Ask(q),
            Flow::Fail(e) => Step::Done(Err(e)),
            Flow::Got(_) => Step::Done(Ok(())),
        }
    }

    /// Changes a remote's URL.
    pub fn set_remote_url(&self, name: &str, url: &str, replies: &[Reply]) -> (r: Step<()>)
        ensures
            step_view(r, |u: ()| u) == map_done(run_git(replies_view(replies@), 0, self.dir(), seq!["remote"@, "set-url"@, name@, url@]), |o: Seq<char>| ()),
    {
        let args = vec![s("remote"), s("set-url"), s(name), s(url)];
        assert(strs(args@) =~= seq!["remote"@, "set-url"@, name@, url@]);
        match self.git(replies, 0, args) {
            Flow::Ask(q) => Step::Ask(q),
            Flow::Fail(e) => Step::Done(Err(e)),
            Flow::Got(_) => Step::Done(Ok(())),
        }
    }
}

} // verus!
