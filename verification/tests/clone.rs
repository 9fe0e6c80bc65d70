use gitcore::clone::repo_name_from_url;

#[test]
fn name_from_https_with_dot_git() {
    assert_eq!(repo_name_from_url("https://github.com/user/repo.git"), "repo");
}

#[test]
fn name_from_https_without_dot_git() {
    assert_eq!(repo_name_from_url("https://github.com/user/repo"), "repo");
}

#[test]
fn name_from_scp_form() {
    assert_eq!(repo_name_from_url("git@github.com:user/repo.git"), "repo");
}

#[test]
fn name_from_trailing_slash() {
    assert_eq!(repo_name_from_url("https://github.com/user/repo/"), "repo");
}

#[test]
fn name_empty_url_falls_back() {
    assert_eq!(repo_name_from_url(""), "repo");
}

#[test]
fn name_of_only_dot_git_falls_back() {
    assert_eq!(repo_name_from_url("https://host/.git"), "repo");
    assert_eq!(repo_name_from_url("  host:proj  "), "proj");
}
