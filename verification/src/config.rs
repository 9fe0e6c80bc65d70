//! The repository list of `.git-gui/repos.toml`: a small reader for `[[repos]]` blocks
//! with `name = "..."` and `path = "..."`.
use vstd::prelude::*;
use crate::text::{trim, starts_with, index_of, lines};
use crate::error::{Error, ErrorV, error_text};
use crate::repo::{Reply, ReplyV, Step, Flow, Outcome, step_view, replies_view, run_read, copy_string, s, path_join, join_path};

verus! {

/// A configured repository.
#[derive(Debug, Clone)]
pub struct RepoConfig {
    pub name: String,
    pub path: String,
}

/// The value of `= "value"` (the part after the key): `None` unless it has that form.
pub open spec fn string_value_spec(rest: Seq<char>) -> Option<Seq<char>> {
    let r = trim(rest);
    if !(r.len() > 0 && r[0] == '=') {
        None
    } else {
        let r2 = trim(r.skip(1));
        if !(r2.len() > 0 && r2[0] == '"') {
            None
        } else {
            let r3 = r2.skip(1);
            let e = index_of(r3, '"');
            if e < r3.len() {
                Some(r3.take(e))
            } else {
                None
            }
        }
    }
}

/// Reader state: the repositories so far and the open block's name and path.
pub struct TomlState {
    pub repos: Seq<(Seq<char>, Seq<char>)>,
    pub name: Option<Seq<char>>,
    pub path: Option<Seq<char>>,
}

pub open spec fn flush_block(repos: Seq<(Seq<char>, Seq<char>)>, name: Option<Seq<char>>, path: Option<Seq<char>>) -> Seq<(Seq<char>, Seq<char>)> {
    match (name, path) {
        (Some(n), Some(p)) => repos.push((n, p)),
        _ => repos,
    }
}

/// One line: blank lines and `#` comments are skipped, `[[repos]]` closes the open block
/// (kept only when it has both a name and a path), `name`/`path` lines set the value.
pub open spec fn toml_step(st: TomlState, raw: Seq<char>) -> TomlState {
    let l = trim(raw);
    if l.len() == 0 || l[0] == '#' {
        st
    } else if l == "[[repos]]"@ {
        TomlState { repos: flush_block(st.repos, st.name, st.path), name: None, path: None }
    } else {
        let st1 = if starts_with(l, "name"@) {
            match string_value_spec(l.skip(4)) {
                Some(v) => TomlState { name: Some(v), ..st },
                None => st,
            }
        } else {
            st
        };
        if starts_with(l, "path"@) {
            match string_value_spec(l.skip(4)) {
                Some(v) => TomlState { path: Some(v), ..st1 },
                None => st1,
            }
        } else {
            st1
        }
    }
}

pub open spec fn toml_scan(ls: Seq<Seq<char>>, n: int) -> TomlState
    decreases n,
{
    if n <= 0 {
        TomlState { repos: Seq::empty(), name: None, path: None }
    } else {
        toml_step(toml_scan(ls, n - 1), ls[n - 1])
    }
}

/// The repositories of a config text.
pub open spec fn parse_toml_spec(content: Seq<char>) -> Seq<(Seq<char>, Seq<char>)> {
    let ls = lines(content);
    let st = toml_scan(ls, ls.len() as int);
    flush_block(st.repos, st.name, st.path)
}

pub open spec fn configs_view(v: Seq<RepoConfig>) -> Seq<(Seq<char>, Seq<char>)> {
    v.map_values(|c: RepoConfig| (c.name@, c.path@))
}

/// The value of `= "value"`.
fn extract_string_value(rest: &[char]) -> (r: Option<Vec<char>>)
    ensures
        match r {
            Some(v) => string_value_spec(rest@) == Some(v@),
            None => string_value_spec(rest@) is None,
        },
{
    let r = crate::text::trim_vec(rest);
    if !(r.len() > 0 && r[0] == '=') {
        return None;
    }
    let tail = crate::text::slice_vec(&r, 1, r.len());
    assert(tail@ =~= r@.skip(1));
    let r2 = crate::text::trim_vec(&tail);
    if !(r2.len() > 0 && r2[0] == '"') {
        return None;
    }
    let r3 = crate::text::slice_vec(&r2, 1, r2.len());
    assert(r3@ =~= r2@.skip(1));
    let e = crate::text::find_char_from(&r3, '"', 0);
    proof {
        crate::text::lemma_index_of_from_bounds(r3@, '"', 0);
    }
    if e < r3.len() {
        let v = crate::text::slice_vec(&r3, 0, e);
        assert(v@ =~= r3@.take(e as int));
        Some(v)
    } else {
        None
    }
}

fn take_block(repos: &mut Vec<RepoConfig>, name: &Option<Vec<char>>, path: &Option<Vec<char>>)
    ensures
        configs_view(final(repos)@) == flush_block(configs_view(old(repos)@), match name { Some(v) => Some(v@), None => None }, match path { Some(v) => Some(v@), None => None }),
{
    match (name, path) {
        (Some(n), Some(p)) => {
            repos.push(RepoConfig { name: crate::text::string_of(n), path: crate::text::string_of(p) });
            assert(configs_view(repos@) =~= configs_view(old(repos)@).push((n@, p@)));
        },
        _ => {},
    }
}

pub open spec fn opt_chars(o: Option<Vec<char>>) -> Option<Seq<char>> {
    match o {
        Some(v) => Some(v@),
        None => None,
    }
}

/// Reads the `[[repos]]` blocks of a config text (blocks without both a name and a path
/// are left out).
pub fn parse_toml(content: &str) -> (r: Result<Vec<RepoConfig>, String>)
    ensures
        r is Ok,
        configs_view(r->Ok_0@) == parse_toml_spec(content@),
{
    let ls = crate::text::lines_of(&crate::text::chars_of(content));
    let ghost lv = crate::text::views(ls@);
    let mut repos: Vec<RepoConfig> = Vec::new();
    let mut name: Option<Vec<char>> = None;
    let mut path: Option<Vec<char>> = None;
    let mut i: usize = 0;
    assert(configs_view(repos@) =~= Seq::<(Seq<char>, Seq<char>)>::empty());
    while i < ls.len()
        invariant
            i <= ls.len(),
            lv == crate::text::views(ls@),
            lv == lines(content@),
            (TomlState { repos: configs_view(repos@), name: opt_chars(name), path: opt_chars(path) }) == toml_scan(lv, i as int),
        decreases ls.len() - i,
    {
        assert(lv[i as int] == ls@[i as int]@);
        let l = crate::text::trim_vec(&ls[i]);
        if l.len() == 0 || l[0] == '#' {
        } else if crate::text::eq_str(&l, "[[repos]]") {
            take_block(&mut repos, &name, &path);
            name = None;
            path = None;
        } else {
            if let Some(rest) = crate::text::strip_prefix_str(&l, "name") {
                proof {
                    reveal_strlit("name");
                }
                if let Some(v) = extract_string_value(&rest) {
                    name = Some(v);
                }
            }
            if let Some(rest) = crate::text::strip_prefix_str(&l, "path") {
                proof {
                    reveal_strlit("path");
                }
                if let Some(v) = extract_string_value(&rest) {
                    path = Some(v);
                }
            }
        }
        i = i + 1;
    }
    take_block(&mut repos, &name, &path);
    Ok(repos)
}


// ───────────────────────── the config file and the repository list ─────────────────────────

/// The message of a config file that could not be read.
pub open spec fn read_fail_msg(e: ErrorV) -> Seq<char> {
    "读取配置文件失败: "@ + match e {
        ErrorV::Io(m) => m,
        other => error_text(other),
    }
}

/// Reading and parsing the config file at `path`.
pub open spec fn repos_config_spec(rs: Seq<ReplyV>, path: Seq<char>) -> Outcome<Result<Seq<(Seq<char>, Seq<char>)>, Seq<char>>> {
    match run_read(rs, 0, path) {
        Outcome::Ask(q) => Outcome::Ask(q),
        Outcome::Fail(e) => Outcome::Done(Err(read_fail_msg(e))),
        Outcome::Done(t) => Outcome::Done(Ok(parse_toml_spec(t))),
    }
}

/// Reads the repository list of the config file `config_path` (`.git-gui/repos.toml`); an
/// unreadable file is an error message.
pub fn parse_repos_config(config_path: &str, replies: &[Reply]) -> (r: Step<Result<Vec<RepoConfig>, String>>)
    ensures
        step_view(r, |x: Result<Vec<RepoConfig>, String>| match x { Ok(v) => Ok(configs_view(v@)), Err(m) => Err(m@) })
            == repos_config_spec(replies_view(replies@), config_path@),
{
    match crate::repo::read_flow(replies, 0, s(config_path)) {
        Flow::Ask(q) => Step::Ask(q),
        Flow::Fail(e) => {
            let detail = match &e {
                Error::Io(m) => copy_string(m),
                other => other.message(),
            };
            Step::Done(Ok(Err(crate::ui::cat2("读取配置文件失败: ", detail.as_str()))))
        },
        Flow::Got(t) => Step::Done(Ok(parse_toml(t.as_str()))),
    }
}

/// Is a repository at `path` among `list[..n]`?
pub open spec fn listed(list: Seq<(Seq<char>, Seq<char>)>, path: Seq<char>) -> bool {
    exists|i: int| 0 <= i < list.len() && #[trigger] list[i].1 == path
}

/// `list` with the submodules `subs[..n]` (name, path under `cwd`) that it does not hold
/// yet, in order.
pub open spec fn add_subs(list: Seq<(Seq<char>, Seq<char>)>, cwd: Seq<char>, subs: Seq<(Seq<char>, Seq<char>)>, n: int) -> Seq<(Seq<char>, Seq<char>)>
    decreases n,
{
    if n <= 0 {
        list
    } else {
        let before = add_subs(list, cwd, subs, n - 1);
        let p = path_join(cwd, subs[n - 1].1);
        if listed(before, p) { before } else { before.push((subs[n - 1].0, p)) }
    }
}

/// The repositories to show, as (name, path): those of the config (relative paths under
/// `cwd`); the working tree itself first, as "主仓库", unless the config names it; then the
/// submodules not named yet.
pub open spec fn repo_list_spec(cwd: Seq<char>, configs: Seq<(Seq<char>, Seq<char>)>, subs: Seq<(Seq<char>, Seq<char>)>) -> Seq<(Seq<char>, Seq<char>)> {
    let from_config = configs.map_values(|c: (Seq<char>, Seq<char>)| (c.0, path_join(cwd, c.1)));
    let with_main = if from_config.len() == 0 || !listed(from_config, cwd) {
        seq![("主仓库"@, cwd)] + from_config
    } else {
        from_config
    };
    add_subs(with_main, cwd, subs, subs.len() as int)
}

fn listed_exec(list: &Vec<(String, String)>, path: &String) -> (r: bool)
    ensures
        r == listed(list@.map_values(|e: (String, String)| (e.0@, e.1@)), path@),
{
    let ghost lv = list@.map_values(|e: (String, String)| (e.0@, e.1@));
    let pc = crate::text::chars_of(path.as_str());
    let mut i: usize = 0;
    while i < list.len()
        invariant
            i <= list.len(),
            lv == list@.map_values(|e: (String, String)| (e.0@, e.1@)),
            pc@ == path@,
            forall|j: int| 0 <= j < i ==> lv[j].1 != path@,
        decreases list.len() - i,
    {
        if crate::text::eq_str(&crate::text::chars_of(list[i].1.as_str()), path.as_str()) {
            assert(lv[i as int].1 == path@);
            return true;
        }
        i = i + 1;
    }
    false
}

/// The repositories to show (see `repo_list_spec`), from the config entries and the
/// working tree's submodules.
pub fn load_repos(cwd: &str, configs: &[RepoConfig], subs: &[crate::submodule::Submodule]) -> (r: Vec<(String, String)>)
    ensures
        r@.map_values(|e: (String, String)| (e.0@, e.1@))
            == repo_list_spec(cwd@, configs_view(configs@), subs@.map_values(|m: crate::submodule::Submodule| (m.name@, m.path@))),
{
    let cw = s(cwd);
    let ghost cv = configs_view(configs@);
    let ghost fc = cv.map_values(|c: (Seq<char>, Seq<char>)| (c.0, path_join(cwd@, c.1)));
    let mut list: Vec<(String, String)> = Vec::new();
    let mut i: usize = 0;
    while i < configs.len()
        invariant
            i <= configs.len(),
            cw@ == cwd@,
            cv == configs_view(configs@),
            fc == cv.map_values(|c: (Seq<char>, Seq<char>)| (c.0, path_join(cwd@, c.1))),
            list@.map_values(|e: (String, String)| (e.0@, e.1@)) == fc.take(i as int),
        decreases configs.len() - i,
    {
        let ghost before = list@.map_values(|e: (String, String)| (e.0@, e.1@));
        let p = crate::repo::join_any(&cw, configs[i].path.as_str());
        list.push((copy_string(&configs[i].name), p));
        assert(list@.map_values(|e: (String, String)| (e.0@, e.1@)) =~= before.push(fc[i as int]));
        assert(fc.take(i + 1) =~= fc.take(i as int).push(fc[i as int]));
        i = i + 1;
    }
    assert(fc.take(configs.len() as int) =~= fc);
    if list.len() == 0 || !listed_exec(&list, &cw) {
        let ghost before = list@.map_values(|e: (String, String)| (e.0@, e.1@));
        list.insert(0, (s("主仓库"), copy_string(&cw)));
        assert(list@.map_values(|e: (String, String)| (e.0@, e.1@)) =~= seq![("主仓库"@, cwd@)] + before);
    }
    let ghost with_main = list@.map_values(|e: (String, String)| (e.0@, e.1@));
    let ghost sv = subs@.map_values(|m: crate::submodule::Submodule| (m.name@, m.path@));
    let mut k: usize = 0;
    while k < subs.len()
        invariant
            k <= subs.len(),
            cw@ == cwd@,
            sv == subs@.map_values(|m: crate::submodule::Submodule| (m.name@, m.path@)),
            list@.map_values(|e: (String, String)| (e.0@, e.1@)) == add_subs(with_main, cwd@, sv, k as int),
        decreases subs.len() - k,
    {
        let p = crate::repo::join_any(&cw, subs[k].path.as_str());
        assert(sv[k as int] == (subs@[k as int].name@, subs@[k as int].path@));
        if !listed_exec(&list, &p) {
            let ghost before = list@.map_values(|e: (String, String)| (e.0@, e.1@));
            list.push((copy_string(&subs[k].name), p));
            assert(list@.map_values(|e: (String, String)| (e.0@, e.1@)) =~= before.push((sv[k as int].0, path_join(cwd@, sv[k as int].1))));
        }
        k = k + 1;
    }
    list
}

} // verus!
