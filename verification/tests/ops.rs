use gitcore::error::Error;
use gitcore::repo::{Flow, GitOutput, Reply, Request, Step, Repo};
use gitcore::stash::PopResult;
use gitcore::update::{UpdateOptions, UpdateOutcome};

fn ok(out: &str) -> Reply {
    Reply::Git(GitOutput { success: true, code: Some(0), stdout: out.into(), stderr: String::new() })
}

fn fail(err: &str) -> Reply {
    Reply::Git(GitOutput { success: false, code: Some(1), stdout: String::new(), stderr: err.into() })
}

/// Runs an operation against scripted answers, recording the git commands it ran.
fn run<T>(mut op: impl FnMut(&[Reply]) -> Step<T>, mut answer: impl FnMut(&Request) -> Reply) -> (Result<T, Error>, Vec<String>) {
    let mut replies = Vec::new();
    let mut seen = Vec::new();
    for _ in 0..200 {
        match op(&replies) {
            Step::Ask(req) => {
                if let Request::Git(c) = &req {
                    seen.push(c.args.join(" "));
                }
                replies.push(answer(&req));
            }
            Step::Done(r) => return (r, seen),
        }
    }
    panic!("the operation did not end");
}

/// A repository one commit behind its upstream, with a dirty working tree; `merge_ok`
/// tells whether the fast-forward succeeds.
fn behind_and_dirty(merge_ok: bool) -> impl FnMut(&Request) -> Reply {
    move |req| match req {
        Request::Exists(_) => Reply::Bool(false),
        Request::ProcessId => Reply::Size(42),
        Request::Git(c) => {
            let a = c.args.join(" ");
            if a == "rev-parse --git-dir" {
                ok(".git\n")
            } else if a.starts_with("rev-parse --abbrev-ref") {
                ok("origin/main\n")
            } else if a.starts_with("fetch") {
                ok("")
            } else if a.starts_with("rev-list --left-right --count") {
                ok("1\t0\n")
            } else if a == "status --porcelain" {
                ok(" M a.txt\n")
            } else if a.starts_with("stash push") {
                ok("Saved\n")
            } else if a == "merge --ff-only @{u}" {
                if merge_ok { ok("") } else { fail("hook refused") }
            } else if a.starts_with("stash list") {
                ok("stash@{0} On main: gitcore-autostash:42\n")
            } else if a.starts_with("stash apply") || a.starts_with("stash drop") || a.starts_with("submodule") {
                ok("")
            } else if a.starts_with("diff --name-only") {
                ok("")
            } else {
                fail("unexpected")
            }
        }
        _ => Reply::Failed("unexpected request".into()),
    }
}

#[test]
fn update_up_to_date_touches_nothing() {
    let repo = Repo::at("/w");
    let (r, seen) = run(
        |rs| repo.execute_update(&UpdateOptions::default(), rs),
        |req| match req {
            Request::Exists(_) => Reply::Bool(false),
            Request::Git(c) if c.args.join(" ").starts_with("rev-list") => ok("0\t3\n"),
            Request::Git(c) if c.args[0] == "rev-parse" && c.args[1] == "--git-dir" => ok(".git\n"),
            Request::Git(_) => ok("origin/main\n"),
            _ => Reply::Failed("?".into()),
        },
    );
    assert!(matches!(r, Ok(UpdateOutcome::AlreadyUpToDate)));
    assert!(!seen.iter().any(|a| a.starts_with("stash")), "no stash when nothing comes in");
}

#[test]
fn update_fast_forwards_around_an_autostash() {
    let repo = Repo::at("/w");
    let (r, seen) = run(|rs| repo.execute_update(&UpdateOptions::default(), rs), behind_and_dirty(true));
    assert!(matches!(r, Ok(UpdateOutcome::FastForwarded { commits: 1 })));
    let push = seen.iter().position(|a| a.starts_with("stash push")).expect("stashed");
    let merge = seen.iter().position(|a| a.starts_with("merge")).expect("merged");
    let apply = seen.iter().position(|a| a == "stash apply stash@{0}").expect("restored");
    let drop = seen.iter().position(|a| a == "stash drop stash@{0}").expect("dropped");
    assert!(push < merge && merge < apply && apply < drop);
    assert!(seen[push].ends_with("gitcore-autostash:42"));
}

#[test]
fn update_restores_autostash_when_integration_fails() {
    let repo = Repo::at("/w");
    let (r, seen) = run(|rs| repo.execute_update(&UpdateOptions::default(), rs), behind_and_dirty(false));
    match r {
        Err(Error::Git { stderr, .. }) => assert_eq!(stderr, "hook refused"),
        other => panic!("expected the merge failure, got {other:?}"),
    }
    assert!(seen.iter().any(|a| a == "stash apply stash@{0}"), "the stash came back");
}

#[test]
fn stash_pop_conflict_keeps_the_stash() {
    let repo = Repo::at("/w");
    let (r, seen) = run(
        |rs| repo.stash_pop("stash@{1}", rs),
        |req| match req {
            Request::Git(c) if c.args[0] == "stash" => fail("CONFLICT (content)"),
            Request::Git(_) => ok("a.txt\n"),
            _ => Reply::Failed("?".into()),
        },
    );
    match r {
        Ok(PopResult::Conflict(files)) => assert_eq!(files, vec!["a.txt".to_string()]),
        other => panic!("expected a conflict, got {other:?}"),
    }
    assert!(!seen.iter().any(|a| a.contains("drop")));
}

#[test]
fn check_git_reports_missing_git() {
    let (r, _) = run(|rs| Repo::check_git(rs), |_| Reply::Failed("No such file or directory".into()));
    match r {
        Err(Error::Io(m)) => assert!(m.contains("PATH")),
        other => panic!("expected the PATH message, got {other:?}"),
    }
    let (r, _) = run(|rs| Repo::check_git(rs), |_| ok("git version 2.44.0\n"));
    assert!(r.is_ok());
}

#[test]
fn bad_counts_are_quoted_in_the_error() {
    let repo = Repo::at("/w");
    let (r, _) = run(
        |rs| repo.execute_update(&UpdateOptions::default(), rs),
        |req| match req {
            Request::Exists(_) => Reply::Bool(false),
            Request::Git(c) if c.args[0] == "rev-list" => ok("garbage\n"),
            Request::Git(c) if c.args[1] == "--git-dir" => ok(".git\n"),
            Request::Git(_) => ok("origin/main\n"),
            _ => Reply::Failed("?".into()),
        },
    );
    match r {
        Err(Error::Parse(m)) => assert_eq!(m, "rev-list --count 输出异常: \"garbage\\n\""),
        other => panic!("expected a parse error, got {other:?}"),
    }
}

#[test]
fn untracked_file_bytes_are_decoded() {
    let repo = Repo::at("/w");
    match repo.untracked_file(&[Reply::Bytes(b"hi\n\xff\n".to_vec())], 0, "n.txt") {
        Flow::Got((Some(fd), 1)) => {
            assert_eq!(fd.path, "n.txt");
            let lines: Vec<&str> = fd.hunks[0].lines.iter().map(|l| l.content.as_str()).collect();
            assert_eq!(lines, vec!["hi", "\u{FFFD}"]);
        }
        _ => panic!("expected the file's diff"),
    }
    assert!(matches!(repo.untracked_file(&[Reply::Failed("gone".into())], 0, "n.txt"), Flow::Got((None, 1))));
}

#[test]
fn status_with_only_a_conflict_is_dirty() {
    let repo = Repo::at("/w");
    let (r, _) = run(
        |rs| repo.status(rs),
        |req| match req {
            Request::Exists(_) => Reply::Bool(false),
            Request::Git(_) => ok("# branch.head main\0u UU N... 100644 100644 100644 100644 h1 h2 h3 a.txt\0"),
            _ => Reply::Failed("?".into()),
        },
    );
    let st = r.expect("status");
    assert!(st.dirty, "an unmerged path is an uncommitted change");
    assert_eq!(st.conflicted, vec!["a.txt".to_string()]);
    assert!(st.files.is_empty());
}

#[test]
fn status_with_only_ignored_paths_is_clean() {
    let repo = Repo::at("/w");
    let (r, _) = run(
        |rs| repo.status(rs),
        |req| match req {
            Request::Exists(_) => Reply::Bool(false),
            Request::Git(_) => ok("# branch.head main\0! target/\0"),
            _ => Reply::Failed("?".into()),
        },
    );
    assert!(!r.expect("status").dirty);
}

#[test]
fn commit_returns_eight_characters() {
    let repo = Repo::at("/w");
    let (r, seen) = run(
        |rs| repo.commit(&gitcore::commit::CommitOptions { message: "m".into(), ..Default::default() }, rs),
        |req| match req {
            Request::Git(c) if c.args[0] == "diff" => fail(""),
            Request::Git(c) if c.args[0] == "rev-parse" => ok("0123456789ab\n"),
            Request::Git(_) => ok(""),
            _ => Reply::Failed("?".into()),
        },
    );
    assert_eq!(r.expect("commit"), "01234567");
    assert_eq!(seen[1], "commit -m m");
}

#[test]
fn checkout_remote_refuses_a_dirty_tree() {
    let repo = Repo::at("/w");
    let (r, seen) = run(
        |rs| repo.checkout_remote("origin/feat", rs),
        |req| match req {
            Request::Git(c) if c.args[0] == "show-ref" => fail(""),
            Request::Git(c) if c.args[0] == "status" => ok(" M a.txt\n"),
            Request::Git(_) => ok(""),
            _ => Reply::Failed("?".into()),
        },
    );
    assert!(matches!(r, Err(Error::Precondition(_))));
    assert!(!seen.iter().any(|a| a.starts_with("checkout")), "no branch was created");
    let (r, seen) = run(
        |rs| repo.checkout_remote("origin/feat", rs),
        |req| match req {
            Request::Git(c) if c.args[0] == "show-ref" => fail(""),
            Request::Git(_) => ok(""),
            _ => Reply::Failed("?".into()),
        },
    );
    assert!(r.is_ok());
    assert_eq!(seen.last().unwrap(), "checkout -b feat --track origin/feat");
}

#[test]
fn log_topology_returns_the_window_laid_out_on_its_prefix() {
    let repo = Repo::at("/w");
    let opts = gitcore::log::LogOptions { max_count: 1, skip: 1, branch: None, author: None, grep: None };
    let (r, seen) = run(
        |rs| repo.log_topology(&opts, rs),
        |req| match req {
            Request::Git(_) => ok("M\0P F\0m\0merge\0a\0now\nF\0P\0f\0feature\0a\0now\nP\0\0p\0base\0a\0now"),
            _ => Reply::Failed("?".into()),
        },
    );
    let page = r.expect("log");
    assert!(seen[0].contains(" -2 "), "skip + max_count commits are read: {}", seen[0]);
    assert_eq!(page.len(), 1);
    assert_eq!(page[0].entry.full_sha, "F");
    assert_eq!(page[0].lane, 1, "the lane comes from the whole prefix");
}

#[test]
fn submodule_pull_conflict_is_rolled_back() {
    let repo = Repo::at("/w");
    let mut merging = false;
    let (r, seen) = run(
        |rs| repo.update_submodule_on_branch("sub", &UpdateOptions::default(), rs),
        move |req| match req {
            Request::Exists(p) => Reply::Bool(merging && p.ends_with("MERGE_HEAD")),
            Request::ProcessId => Reply::Size(42),
            Request::ReadFile(_) => Reply::Text("<<<<<<< ours\na\n=======\nb\n>>>>>>> theirs\n".into()),
            Request::Git(c) => {
                let a = c.args.join(" ");
                if a == "rev-parse --git-dir" {
                    ok(".git\n")
                } else if a == "rev-parse --abbrev-ref HEAD" {
                    ok("main\n")
                } else if a.starts_with("rev-parse --abbrev-ref") {
                    ok("origin/main\n")
                } else if a.starts_with("rev-list") {
                    ok("1\t1\n")
                } else if a == "status --porcelain" {
                    ok(" M a.txt\n")
                } else if a == "merge --abort" {
                    merging = false;
                    ok("")
                } else if a.contains(" merge --no-edit") {
                    merging = true;
                    fail("CONFLICT (content): Merge conflict in a.txt")
                } else if a.starts_with("diff --name-only") {
                    ok(if merging { "a.txt\n" } else { "" })
                } else if a.starts_with("stash list") {
                    ok("stash@{0} On main: gitcore-autostash:42\n")
                } else {
                    ok("")
                }
            }
            _ => Reply::Failed("?".into()),
        },
    );
    match r {
        Ok(gitcore::update::SubmoduleUpdate::Conflicted { repo_path, files }) => {
            assert_eq!(repo_path, "/w/sub");
            assert_eq!(files, vec!["a.txt".to_string()]);
        }
        other => panic!("expected a rolled-back conflict, got {other:?}"),
    }
    let merge = seen.iter().position(|a| a.contains(" merge --no-edit")).expect("merged");
    let abort = seen.iter().position(|a| a == "merge --abort").expect("aborted");
    let apply = seen.iter().position(|a| a == "stash apply stash@{0}").expect("stash put back");
    assert!(merge < abort && abort < apply);
    assert!(seen.iter().any(|a| a == "stash drop stash@{0}"));
}

#[test]
fn status_with_a_staged_then_deleted_path_is_dirty() {
    let repo = Repo::at("/w");
    let (r, _) = run(
        |rs| repo.status(rs),
        |req| match req {
            Request::Exists(_) => Reply::Bool(false),
            Request::Git(_) => ok("# branch.head main\01 AD N... 000000 100644 000000 h1 h2 gone.txt\0"),
            _ => Reply::Failed("?".into()),
        },
    );
    let st = r.expect("status");
    assert!(st.dirty);
    assert!(st.files.is_empty() && st.conflicted.is_empty());
}

fn cleaning(dry_run: &'static str) -> impl FnMut(&Request) -> Reply {
    move |req| match req {
        Request::Git(c) => {
            let a = c.args.join(" ");
            if a.contains("clean -n") {
                ok(dry_run)
            } else if a.contains("ls-files --others --exclude-standard -- d/") {
                ok("d/1.txt\nd/2.txt\nd/sub/3.txt\n")
            } else if a.contains("clean -f") {
                ok("Removing whatever\n")
            } else {
                fail("unexpected")
            }
        }
        _ => Reply::Failed("?".into()),
    }
}

#[test]
fn clean_force_counts_the_files_of_a_removed_directory() {
    let repo = Repo::at("/w");
    let (r, seen) = run(|rs| repo.clean_force(true, rs), cleaning("Would remove d/\n"));
    assert_eq!(r.expect("clean"), 3);
    assert!(seen.last().unwrap().ends_with("clean -f -d"));
    assert!(seen.iter().all(|a| !a.contains("-x")), "ignored files are never cleaned");
    let (r, _) = run(|rs| repo.clean_force(true, rs), cleaning("Would remove a.txt\nWould remove d/\n"));
    assert_eq!(r.expect("clean"), 4);
}

#[test]
fn clean_force_without_directories_counts_files() {
    let repo = Repo::at("/w");
    let (r, seen) = run(|rs| repo.clean_force(false, rs), cleaning("Would remove a.txt\nWould remove b.txt\n"));
    assert_eq!(r.expect("clean"), 2);
    assert_eq!(seen.len(), 2, "no listing without directories");
}
