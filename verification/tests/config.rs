use gitcore::config::parse_toml;

#[test]
fn parse_simple_config() {
    let toml = r#"
# 注释
[[repos]]
name = "主仓库"
path = "."

[[repos]]
name = "前端"
path = "../frontend"
"#;
    let repos = parse_toml(toml).unwrap();
    assert_eq!(repos.len(), 2);
    assert_eq!(repos[0].name, "主仓库");
    assert_eq!(repos[0].path, ".");
    assert_eq!(repos[1].name, "前端");
    assert_eq!(repos[1].path, "../frontend");
}

#[test]
fn incomplete_entry_is_dropped() {
    let repos = parse_toml("[[repos]]\nname = \"only name\"\n").unwrap();
    assert!(repos.is_empty());
}
