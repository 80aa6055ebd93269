use skills_hub::fingerprint::{hash_entries, FileEntry};
use skills_hub::onboarding::{
    filter_detected, managed_target_key, plan_from_scan, DetectedSkill, OnboardingPlan,
};

fn detected(tool: &str, name: &str, path: &str) -> DetectedSkill {
    DetectedSkill {
        tool: tool.to_string(),
        name: name.to_string(),
        path: path.to_string(),
        is_link: false,
        link_target: None,
    }
}

fn fingerprint(file: &str, contents: &[u8]) -> Option<String> {
    Some(hash_entries(&vec![FileEntry { rel_path: file.to_string(), contents: contents.to_vec() }]))
}

fn plan_of(
    tools: usize,
    found: Vec<DetectedSkill>,
    contents: Vec<&[u8]>,
    root: Option<&str>,
    managed: Option<Vec<String>>,
    names: Option<Vec<String>>,
) -> OnboardingPlan {
    let found: Vec<(DetectedSkill, &[u8])> = found.into_iter().zip(contents).collect();
    let paths: Vec<String> = found.iter().map(|(d, _)| d.path.clone()).collect();
    let (ds, cs): (Vec<DetectedSkill>, Vec<&[u8]>) = found.into_iter().unzip();
    let kept = filter_detected(ds, root.map(|r| r.to_string()), managed, false);
    let fps: Vec<Option<String>> = kept
        .iter()
        .map(|d| {
            let i = paths.iter().position(|p| *p == d.path).unwrap();
            fingerprint("a.txt", cs[i])
        })
        .collect();
    plan_from_scan(tools, kept, fps, names)
}

#[test]
fn groups_by_name_and_detects_conflicts_by_fingerprint() {
    let plan = plan_of(
        2,
        vec![
            detected("cursor", "foo", "/home/u/.cursor/skills/foo"),
            detected("codex", "foo", "/home/u/.codex/skills/foo"),
        ],
        vec![b"cursor", b"codex"],
        None,
        None,
        None,
    );
    assert_eq!(plan.total_tools_scanned, 2);
    assert_eq!(plan.total_skills_found, 2);
    assert_eq!(plan.groups.len(), 1);
    assert_eq!(plan.groups[0].name, "foo");
    assert!(plan.groups[0].has_conflict, "same name with different content must conflict");
    assert_eq!(plan.groups[0].variants.len(), 2);
}

#[test]
fn excludes_central_repo_path() {
    let mut link = detected("cursor", "skill-a", "/home/u/.cursor/skills/skill-a");
    link.is_link = true;
    link.link_target = Some("/home/u/central/skill-a".to_string());
    let plan = plan_of(1, vec![link], vec![b"x"], Some("/home/u/central"), None, None);
    assert_eq!(plan.total_skills_found, 0);
}

#[test]
fn excludes_managed_skill_targets() {
    let exclude = vec![managed_target_key("cursor", "/home/u/.cursor/skills/foo", false)];
    let plan = plan_of(
        1,
        vec![detected("cursor", "foo", "/home/u/.cursor/skills/foo")],
        vec![b"cursor"],
        None,
        Some(exclude),
        None,
    );
    assert_eq!(plan.total_skills_found, 0);
}

#[test]
fn identical_content_groups_without_conflict() {
    let plan = plan_of(
        2,
        vec![
            detected("toolA", "foo", "/h/.toolA/skills/foo"),
            detected("toolB", "foo", "/h/.toolB/skills/foo"),
        ],
        vec![b"x", b"x"],
        None,
        None,
        None,
    );
    assert_eq!(plan.groups.len(), 1);
    assert!(!plan.groups[0].has_conflict);
    assert_eq!(plan.groups[0].variants.len(), 2);
}

#[test]
fn differing_content_groups_with_conflict() {
    let plan = plan_of(
        2,
        vec![
            detected("toolA", "foo", "/h/.toolA/skills/foo"),
            detected("toolB", "foo", "/h/.toolB/skills/foo"),
        ],
        vec![b"x", b"y"],
        None,
        None,
        None,
    );
    assert_eq!(plan.groups.len(), 1);
    assert_eq!(plan.groups[0].name, "foo");
    assert!(plan.groups[0].has_conflict);
    assert_eq!(plan.groups[0].variants.len(), 2);
}

#[test]
fn single_installed_tool_with_one_skill() {
    let plan = plan_of(1, vec![detected("toolA", "foo", "/h/.toolA/skills/foo")], vec![b"x"], None, None, None);
    assert_eq!(plan.total_tools_scanned, 1);
    assert_eq!(plan.total_skills_found, 1);
    assert_eq!(plan.groups.len(), 1);
    assert!(!plan.groups[0].has_conflict);
}

#[test]
fn excluding_one_variant_keeps_the_other() {
    let exclude = vec![managed_target_key("toolA", "/h/.toolA/skills/foo", false)];
    let plan = plan_of(
        2,
        vec![
            detected("toolA", "foo", "/h/.toolA/skills/foo"),
            detected("toolB", "foo", "/h/.toolB/skills/foo"),
        ],
        vec![b"x", b"y"],
        None,
        Some(exclude),
        None,
    );
    assert_eq!(plan.total_skills_found, 1);
    assert_eq!(plan.groups.len(), 1);
    assert_eq!(plan.groups[0].variants.len(), 1);
    assert_eq!(plan.groups[0].variants[0].tool, "toolB");
    assert!(!plan.groups[0].has_conflict);
}

#[test]
fn excluding_the_only_variant_removes_its_group() {
    let exclude = vec![managed_target_key("TOOLA", "/h/.toolA/skills/foo/", false)];
    let plan = plan_of(
        1,
        vec![
            detected("toolA", "foo", "/h/.toolA/skills/foo"),
            detected("toolA", "bar", "/h/.toolA/skills/bar"),
        ],
        vec![b"x", b"y"],
        None,
        Some(exclude),
        None,
    );
    assert_eq!(plan.total_skills_found, 1);
    assert_eq!(plan.groups.len(), 1);
    assert_eq!(plan.groups[0].name, "bar");
}

#[test]
fn managed_names_are_not_offered() {
    let plan = plan_of(
        1,
        vec![
            detected("toolA", "foo", "/h/.toolA/skills/foo"),
            detected("toolA", "bar", "/h/.toolA/skills/bar"),
        ],
        vec![b"x", b"y"],
        None,
        None,
        Some(vec!["foo".to_string()]),
    );
    assert_eq!(plan.total_skills_found, 1);
    assert_eq!(plan.groups[0].name, "bar");
}

#[test]
fn unfingerprinted_variants_do_not_conflict() {
    let plan = plan_from_scan(
        2,
        vec![detected("a", "foo", "/a/foo"), detected("b", "foo", "/b/foo")],
        vec![None, Some("abc".to_string())],
        None,
    );
    assert_eq!(plan.groups.len(), 1);
    assert!(!plan.groups[0].has_conflict);
    let none = plan_from_scan(2, vec![detected("a", "foo", "/a/foo")], vec![None], None);
    assert!(!none.groups[0].has_conflict);
}

#[test]
fn groups_keep_first_appearance_order() {
    let plan = plan_from_scan(
        1,
        vec![detected("a", "x", "/a/x"), detected("a", "y", "/a/y"), detected("b", "x", "/b/x")],
        vec![None, None, None],
        None,
    );
    assert_eq!(plan.groups.len(), 2);
    assert_eq!(plan.groups[0].name, "x");
    assert_eq!(plan.groups[0].variants.len(), 2);
    assert_eq!(plan.groups[1].name, "y");
    assert_eq!(plan.total_skills_found, 3);
}

#[test]
fn target_key_lowercases_tool_and_normalises_path() {
    assert_eq!(managed_target_key("Cursor", "/a//b/./c", false), "cursor\n/a/b/c");
    assert_eq!(managed_target_key("cursor", "/A/B", true), "cursor\n/a/b");
    assert_eq!(managed_target_key("cursor", "/A/B", false), "cursor\n/A/B");
}
