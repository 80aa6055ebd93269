use skills_hub::descriptor::DescriptorError;
use skills_hub::installer::{
    check_install_target, check_single_skill_repo, git_candidate, local_candidate,
    local_source_identity, needs_resync, new_skill_record, root_fallback_name, staging_dir_name,
    target_after_sync, update_source, updated_record, GitOrigin, InstallError, InstallResult,
    SourceIdentity, UpdateSource,
};
use skills_hub::store::{SkillRecord, SkillTargetRecord};
use skills_hub::swap::{is_finished, next_swap_phase, SwapPhase};

fn record(source_type: &str, source_ref: Option<&str>) -> SkillRecord {
    SkillRecord {
        id: "id-1".to_string(),
        name: "foo".to_string(),
        source_type: source_type.to_string(),
        source_ref: source_ref.map(|s| s.to_string()),
        source_revision: Some("old".to_string()),
        central_path: "/c/foo".to_string(),
        content_hash: None,
        created_at: 10,
        updated_at: 10,
        last_sync_at: Some(11),
        last_seen_at: 10,
        status: "ok".to_string(),
        metadata: None,
    }
}

fn target(tool: &str, mode: &str) -> SkillTargetRecord {
    SkillTargetRecord {
        id: "t1".to_string(),
        skill_id: "id-1".to_string(),
        tool: tool.to_string(),
        target_path: "/t/foo".to_string(),
        mode: mode.to_string(),
        status: "ok".to_string(),
        last_error: None,
        synced_at: Some(5),
    }
}

#[test]
fn install_into_existing_destination_fails() {
    assert_eq!(check_install_target(true, true), Err(InstallError::AlreadyExists));
    assert_eq!(check_install_target(false, false), Err(InstallError::SourceNotFound));
    assert_eq!(check_install_target(false, true), Err(InstallError::SourceNotFound));
    assert_eq!(check_install_target(true, false), Ok(()));
}

#[test]
fn repository_root_with_several_skills_is_refused() {
    assert_eq!(check_single_skill_repo(2), Err(InstallError::MultipleSkills));
    assert_eq!(check_single_skill_repo(1), Ok(()));
    assert_eq!(check_single_skill_repo(0), Ok(()));
}

#[test]
fn local_source_identity_prefers_git_origin() {
    let g = local_source_identity(
        "/src/foo",
        Some(GitOrigin { origin_url: Some("https://h/x.git".to_string()), head: Some("abc".to_string()) }),
    );
    assert_eq!((g.source_type.as_str(), g.source_ref.as_deref(), g.source_revision.as_deref()), ("git", Some("https://h/x.git"), Some("abc")));
    let no_origin = local_source_identity("/src/foo", Some(GitOrigin { origin_url: None, head: Some("abc".to_string()) }));
    assert_eq!((no_origin.source_type.as_str(), no_origin.source_ref.as_deref(), no_origin.source_revision), ("local", Some("/src/foo"), None));
    let plain = local_source_identity("/src/foo", None);
    assert_eq!((plain.source_type.as_str(), plain.source_ref.as_deref()), ("local", Some("/src/foo")));
}

#[test]
fn fresh_record_and_install_result() {
    let source = SourceIdentity { source_type: "git".to_string(), source_ref: Some("o/r".to_string()), source_revision: Some("r1".to_string()) };
    let r = new_skill_record("foo".to_string(), source, "/c/foo".to_string(), Some("h".to_string()), None, 42);
    assert_eq!(r.id.len(), 36);
    assert_eq!((r.created_at, r.updated_at, r.last_seen_at, r.last_sync_at), (42, 42, 42, None));
    assert_eq!(r.status, "ok");
    let res = InstallResult::from_record(&r);
    assert_eq!((res.skill_id, res.name, res.central_path, res.content_hash), (r.id.clone(), "foo".to_string(), "/c/foo".to_string(), Some("h".to_string())));
    let other = new_skill_record("foo".to_string(), SourceIdentity { source_type: "local".to_string(), source_ref: None, source_revision: None }, "/c/x".to_string(), None, None, 1);
    assert_ne!(other.id, r.id);
}

#[test]
fn update_source_by_type() {
    match update_source(&record("git", Some("owner/repo/tree/main/s"))) {
        Ok(UpdateSource::Git { parsed }) => {
            assert_eq!(parsed.clone_url, "https://github.com/owner/repo.git");
            assert_eq!(parsed.branch.as_deref(), Some("main"));
            assert_eq!(parsed.subpath.as_deref(), Some("s"));
        }
        _ => panic!("expected a git source"),
    }
    match update_source(&record("local", Some("/src/foo"))) {
        Ok(UpdateSource::Local { path }) => assert_eq!(path, "/src/foo"),
        _ => panic!("expected a local source"),
    }
    assert!(matches!(update_source(&record("git", None)), Err(InstallError::MissingSourceRef)));
    assert!(matches!(update_source(&record("local", None)), Err(InstallError::MissingSourceRef)));
    assert!(matches!(update_source(&record("svn", Some("x"))), Err(InstallError::UnsupportedSourceType)));
}

#[test]
fn updated_record_keeps_identity() {
    let r = updated_record(record("git", Some("o/r")), Some("new".to_string()), Some("h2".to_string()), None, 99);
    assert_eq!(r.source_revision.as_deref(), Some("new"));
    assert_eq!((r.created_at, r.updated_at, r.last_seen_at, r.last_sync_at), (10, 99, 99, Some(11)));
    assert_eq!(r.content_hash.as_deref(), Some("h2"));
    let kept = updated_record(record("local", Some("/s")), None, None, None, 7);
    assert_eq!(kept.source_revision.as_deref(), Some("old"));
    assert_eq!(kept.id, "id-1");
}

#[test]
fn copy_targets_and_linkless_tools_are_resynced() {
    assert!(needs_resync(&target("codex", "copy"), true));
    assert!(needs_resync(&target("cursor", "link"), true));
    assert!(!needs_resync(&target("codex", "link"), true));
    assert!(!needs_resync(&target("codex", "copy"), false));
}

#[test]
fn sync_outcome_is_recorded_per_target() {
    let ok = target_after_sync(&target("codex", "link"), Ok("/t/new".to_string()), 77);
    assert_eq!((ok.target_path.as_str(), ok.mode.as_str(), ok.status.as_str(), ok.last_error, ok.synced_at), ("/t/new", "copy", "ok", None, Some(77)));
    let bad = target_after_sync(&target("codex", "copy"), Err("disk full".to_string()), 77);
    assert_eq!((bad.target_path.as_str(), bad.status.as_str(), bad.last_error.as_deref(), bad.synced_at), ("/t/foo", "error", Some("disk full"), Some(5)));
}

#[test]
fn staging_directory_names() {
    let a = staging_dir_name();
    assert!(a.starts_with(".skills-hub-update-"));
    assert_eq!(a.len(), 55);
    assert_ne!(a, staging_dir_name());
}

#[test]
fn candidates() {
    let g = git_candidate("dir", "skills/dir".to_string(), Some(("n".to_string(), Some("d".to_string()))));
    assert_eq!((g.name.as_str(), g.description.as_deref(), g.subpath.as_str()), ("n", Some("d"), "skills/dir"));
    assert_eq!(git_candidate("dir", ".".to_string(), None).name, "dir");
    let missing = local_candidate("dir", "skills/dir".to_string(), None);
    assert_eq!((missing.valid, missing.reason.as_deref(), missing.name.as_str()), (false, Some("missing_skill_md"), "dir"));
    let bad = local_candidate("dir", "skills/dir".to_string(), Some(Err(DescriptorError::MissingName)));
    assert_eq!((bad.valid, bad.reason.as_deref()), (false, Some("missing_name")));
    let good = local_candidate("dir", "skills/dir".to_string(), Some(Ok(("n".to_string(), None))));
    assert_eq!((good.valid, good.name.as_str(), good.reason), (true, "n", None));
    assert_eq!(root_fallback_name(""), "root-skill");
    assert_eq!(root_fallback_name("base"), "base");
}

#[test]
fn swap_phases() {
    assert_eq!(next_swap_phase(SwapPhase::RemoveOld, true), SwapPhase::RenameStaging);
    assert_eq!(next_swap_phase(SwapPhase::RemoveOld, false), SwapPhase::FailedRemoving);
    assert_eq!(next_swap_phase(SwapPhase::RenameStaging, true), SwapPhase::Done);
    assert_eq!(next_swap_phase(SwapPhase::RenameStaging, false), SwapPhase::CopyStaging);
    assert_eq!(next_swap_phase(SwapPhase::CopyStaging, true), SwapPhase::RemoveStaging);
    assert_eq!(next_swap_phase(SwapPhase::CopyStaging, false), SwapPhase::FailedCopying);
    assert_eq!(next_swap_phase(SwapPhase::RemoveStaging, false), SwapPhase::Done);
    assert!(is_finished(SwapPhase::Done));
    assert!(!is_finished(SwapPhase::CopyStaging));
}
