use skills_hub::source::{
    derive_name_from_repo_url, install_name_for, looks_like_github_shorthand, parse_github_url,
};

fn parsed(input: &str) -> (String, Option<String>, Option<String>) {
    let p = parse_github_url(input);
    (p.clone_url, p.branch, p.subpath)
}

const CANON: &str = "https://github.com/owner/repo.git";

#[test]
fn github_shapes_share_one_clone_url() {
    for input in [
        "https://github.com/owner/repo",
        "https://github.com/owner/repo.git",
        "https://github.com/owner/repo/",
        "http://github.com/owner/repo",
        "github.com/owner/repo",
        "owner/repo",
        "owner/repo/",
        "owner/repo.git",
        "  owner/repo  ",
        "https://github.com/owner/repo/tree/main/skills/x",
        "https://github.com/owner/repo/blob/dev/README.md",
        "owner/repo/tree/main/skills/x/",
    ] {
        assert_eq!(parsed(input).0, CANON, "input {input}");
    }
}

#[test]
fn shorthand_folder_url_gives_branch_and_subpath() {
    assert_eq!(
        parsed("owner/repo/tree/main/skills/foo"),
        (CANON.to_string(), Some("main".to_string()), Some("skills/foo".to_string()))
    );
    assert_eq!(parsed("https://github.com/owner/repo/blob/v1/a"), (CANON.to_string(), Some("v1".to_string()), Some("a".to_string())));
    assert_eq!(parsed("https://github.com/owner/repo/tree/main"), (CANON.to_string(), Some("main".to_string()), None));
}

#[test]
fn other_references_pass_through() {
    assert_eq!(parsed("/tmp/skills/foo"), ("/tmp/skills/foo".to_string(), None, None));
    assert_eq!(parsed("git@github.com:owner/repo.git"), ("git@github.com:owner/repo.git".to_string(), None, None));
    assert_eq!(parsed("https://gitlab.com/a/b"), ("https://gitlab.com/a/b".to_string(), None, None));
    assert_eq!(parsed("./local/dir/"), ("./local/dir".to_string(), None, None));
    assert_eq!(parsed("owner/repo/other/x"), ("owner/repo/other/x".to_string(), None, None));
    assert_eq!(parsed("https://github.com/owner"), ("https://github.com/owner".to_string(), None, None));
    assert_eq!(parsed(""), ("".to_string(), None, None));
}

#[test]
fn shorthand_detection() {
    assert!(looks_like_github_shorthand("owner/repo"));
    assert!(looks_like_github_shorthand("o-1/r_2.x"));
    assert!(looks_like_github_shorthand("owner/repo/blob/main/x"));
    assert!(!looks_like_github_shorthand("owner"));
    assert!(!looks_like_github_shorthand("/abs/path"));
    assert!(!looks_like_github_shorthand("~/x/y"));
    assert!(!looks_like_github_shorthand(".hidden/y"));
    assert!(!looks_like_github_shorthand("git@host:o/r"));
    assert!(!looks_like_github_shorthand("owner/re po"));
    assert!(!looks_like_github_shorthand("owner/../x"));
    assert!(!looks_like_github_shorthand("owner/repo/issues/1"));
    assert!(!looks_like_github_shorthand(""));
}

#[test]
fn names_from_repo_urls() {
    assert_eq!(derive_name_from_repo_url("https://github.com/owner/repo.git"), "repo");
    assert_eq!(derive_name_from_repo_url("https://host/x/tool"), "tool");
    assert_eq!(derive_name_from_repo_url("https://host/x/"), "skill");
    assert_eq!(derive_name_from_repo_url(".git"), "skill");
    assert_eq!(derive_name_from_repo_url("plain"), "plain");
}

#[test]
fn install_names() {
    let p = parse_github_url("owner/repo/tree/main/skills/foo");
    assert_eq!(install_name_for(&p, None), "foo");
    assert_eq!(install_name_for(&p, Some("given".to_string())), "given");
    let q = parse_github_url("owner/repo");
    assert_eq!(install_name_for(&q, None), "repo");
}
