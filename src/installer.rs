//! Canonical store writer and target synchroniser: the decisions around installing a skill
//! into the canonical directory, updating it by staged swap, and re-syncing copies.
use vstd::prelude::*;
use crate::source::{opt_view, parse_github_url, parse_ref, ParsedGitSource};
use crate::store::{SkillMetadata, SkillRecord, SkillTargetRecord};
use crate::descriptor::{reason_code, DescriptorError};

verus! {

/// The outcome of installing a skill.
pub struct InstallResult {
    pub skill_id: String,
    pub name: String,
    pub central_path: String,
    pub content_hash: Option<String>,
}

/// The outcome of updating a skill from its source.
pub struct UpdateResult {
    pub skill_id: String,
    pub name: String,
    pub central_path: String,
    pub content_hash: Option<String>,
    pub source_revision: Option<String>,
    pub updated_targets: Vec<String>,
}

/// Why an install or update was refused.
#[derive(PartialEq, Eq, Structural, Clone, Copy, Debug)]
pub enum InstallError {
    SourceNotFound,
    AlreadyExists,
    SubpathNotFound,
    MultipleSkills,
    SkillNotFound,
    CentralPathMissing,
    MissingSourceRef,
    UnsupportedSourceType,
}

/// Gate before copying into the canonical store: the source must exist and the destination
/// must not. An install into an existing destination always fails, so nothing is written
/// over what is there.
pub fn check_install_target(source_exists: bool, destination_exists: bool) -> (r: Result<
    (),
    InstallError,
>)
    ensures
        r is Ok <==> source_exists && !destination_exists,
        !source_exists ==> r == Err::<(), InstallError>(InstallError::SourceNotFound),
        source_exists && destination_exists ==> r == Err::<(), InstallError>(
            InstallError::AlreadyExists,
        ),
{
    if !source_exists {
        Err(InstallError::SourceNotFound)
    } else if destination_exists {
        Err(InstallError::AlreadyExists)
    } else {
        Ok(())
    }
}

/// A repository root offered for install must not hold several skills: with two or more
/// skill directories the caller has to pick one folder.
pub fn check_single_skill_repo(skill_dirs: usize) -> (r: Result<(), InstallError>)
    ensures
        r is Ok <==> skill_dirs < 2,
        skill_dirs >= 2 ==> r == Err::<(), InstallError>(InstallError::MultipleSkills),
{
    if skill_dirs >= 2 {
        Err(InstallError::MultipleSkills)
    } else {
        Ok(())
    }
}

/// What a git checkout at a local source reports: its `origin` URL and `HEAD` commit, each
/// when it could be read.
pub struct GitOrigin {
    pub origin_url: Option<String>,
    pub head: Option<String>,
}

/// Where a skill's content comes from, as recorded in the registry.
pub struct SourceIdentity {
    pub source_type: String,
    pub source_ref: Option<String>,
    pub source_revision: Option<String>,
}

/// The identity of a local source: a git checkout with an `origin` is recorded as that git
/// remote at its `HEAD`; anything else as the local path.
pub fn local_source_identity(source_path: &str, git: Option<GitOrigin>) -> (r: SourceIdentity)
    ensures
        (git matches Some(g) && g.origin_url is Some) ==> {
            &&& r.source_type@ == "git"@
            &&& opt_view(r.source_ref) == opt_view(git->0.origin_url)
            &&& opt_view(r.source_revision) == opt_view(git->0.head)
        },
        !(git matches Some(g) && g.origin_url is Some) ==> {
            &&& r.source_type@ == "local"@
            &&& opt_view(r.source_ref) == Some(source_path@)
            &&& r.source_revision is None
        },
{
    match git {
        Some(g) => match g.origin_url {
            Some(url) => SourceIdentity {
                source_type: String::from_str("git"),
                source_ref: Some(url),
                source_revision: g.head,
            },
            None => SourceIdentity {
                source_type: String::from_str("local"),
                source_ref: Some(String::from_str(source_path)),
                source_revision: None,
            },
        },
        None => SourceIdentity {
            source_type: String::from_str("local"),
            source_ref: Some(String::from_str(source_path)),
            source_revision: None,
        },
    }
}

/// Relies on `uuid::Uuid::new_v4` rendered with `to_string`: a random version-4 UUID in its
/// hyphenated form, 36 characters long.
#[verifier::external_body]
fn new_uuid() -> (r: String)
    ensures
        r@.len() == 36,
{
    uuid::Uuid::new_v4().to_string()
}

/// A fresh unique identifier for a registry row.
pub fn new_record_id() -> (r: String)
    ensures
        r@.len() == 36,
{
    new_uuid()
}

/// The registry row for a freshly installed skill, with a new id.
pub fn new_skill_record(
    name: String,
    source: SourceIdentity,
    central_path: String,
    content_hash: Option<String>,
    metadata: Option<SkillMetadata>,
    now_ms: i64,
) -> (r: SkillRecord)
    ensures
        r.id@.len() == 36,
        r.name@ == name@,
        r.source_type@ == source.source_type@,
        opt_view(r.source_ref) == opt_view(source.source_ref),
        opt_view(r.source_revision) == opt_view(source.source_revision),
        r.central_path@ == central_path@,
        opt_view(r.content_hash) == opt_view(content_hash),
        r.created_at == now_ms && r.updated_at == now_ms && r.last_seen_at == now_ms,
        r.last_sync_at is None,
        r.status@ == "ok"@,
        r.metadata == metadata,
{
    SkillRecord {
        id: new_record_id(),
        name,
        source_type: source.source_type,
        source_ref: source.source_ref,
        source_revision: source.source_revision,
        central_path,
        content_hash,
        created_at: now_ms,
        updated_at: now_ms,
        last_sync_at: None,
        last_seen_at: now_ms,
        status: String::from_str("ok"),
        metadata,
    }
}

fn clone_opt(o: &Option<String>) -> (r: Option<String>)
    ensures
        opt_view(r) == opt_view(*o),
{
    match o {
        Some(s) => Some(s.clone()),
        None => None,
    }
}

impl InstallResult {
    /// What an install reports about the row it wrote.
    pub fn from_record(record: &SkillRecord) -> (r: InstallResult)
        ensures
            r.skill_id@ == record.id@,
            r.name@ == record.name@,
            r.central_path@ == record.central_path@,
            opt_view(r.content_hash) == opt_view(record.content_hash),
    {
        InstallResult {
            skill_id: record.id.clone(),
            name: record.name.clone(),
            central_path: record.central_path.clone(),
            content_hash: clone_opt(&record.content_hash),
        }
    }
}

/// Where an update re-reads a skill's content from.
pub enum UpdateSource {
    /// Re-resolve the stored reference and fetch it through the git cache.
    Git { parsed: ParsedGitSource },
    /// Copy again from the stored local path.
    Local { path: String },
}

/// Decides, from the stored record and before anything is touched, where an update reads
/// from; an unknown source type or a missing reference aborts the update.
pub fn update_source(record: &SkillRecord) -> (r: Result<UpdateSource, InstallError>)
    ensures
        record.source_type@ == "git"@ ==> match record.source_ref {
            Some(s) => r matches Ok(UpdateSource::Git { parsed }) && parsed@ == parse_ref(s@),
            None => r == Err::<UpdateSource, InstallError>(InstallError::MissingSourceRef),
        },
        record.source_type@ == "local"@ ==> match record.source_ref {
            Some(s) => r matches Ok(UpdateSource::Local { path }) && path@ == s@,
            None => r == Err::<UpdateSource, InstallError>(InstallError::MissingSourceRef),
        },
        record.source_type@ != "git"@ && record.source_type@ != "local"@ ==> r == Err::<
            UpdateSource,
            InstallError,
        >(InstallError::UnsupportedSourceType),
{
    proof {
        reveal_strlit("git");
        reveal_strlit("local");
        assert("git"@.len() != "local"@.len());
    }
    if crate::text::str_eq(record.source_type.as_str(), "git") {
        match &record.source_ref {
            Some(s) => Ok(UpdateSource::Git { parsed: parse_github_url(s.as_str()) }),
            None => Err(InstallError::MissingSourceRef),
        }
    } else if crate::text::str_eq(record.source_type.as_str(), "local") {
        match &record.source_ref {
            Some(s) => Ok(UpdateSource::Local { path: s.clone() }),
            None => Err(InstallError::MissingSourceRef),
        }
    } else {
        Err(InstallError::UnsupportedSourceType)
    }
}

/// The registry row after a successful update at `now_ms`: the new revision if one was
/// resolved (else the old one), new hash and metadata, fresh timestamps, status `ok`.
pub fn updated_record(
    record: SkillRecord,
    new_revision: Option<String>,
    content_hash: Option<String>,
    metadata: Option<SkillMetadata>,
    now_ms: i64,
) -> (r: SkillRecord)
    ensures
        r.id@ == record.id@,
        r.name@ == record.name@,
        r.source_type@ == record.source_type@,
        opt_view(r.source_ref) == opt_view(record.source_ref),
        opt_view(r.source_revision) == if new_revision is Some {
            opt_view(new_revision)
        } else {
            opt_view(record.source_revision)
        },
        r.central_path@ == record.central_path@,
        opt_view(r.content_hash) == opt_view(content_hash),
        r.created_at == record.created_at,
        r.updated_at == now_ms,
        r.last_seen_at == now_ms,
        r.last_sync_at == record.last_sync_at,
        r.status@ == "ok"@,
        r.metadata == metadata,
{
    let source_revision = match new_revision {
        Some(v) => Some(v),
        None => record.source_revision,
    };
    SkillRecord {
        id: record.id,
        name: record.name,
        source_type: record.source_type,
        source_ref: record.source_ref,
        source_revision,
        central_path: record.central_path,
        content_hash,
        created_at: record.created_at,
        updated_at: now_ms,
        last_sync_at: record.last_sync_at,
        last_seen_at: now_ms,
        status: String::from_str("ok"),
        metadata,
    }
}

/// The tool whose directories cannot hold links, so its targets are always copies.
pub open spec fn link_incapable_tool() -> Seq<char> {
    "cursor"@
}

/// Whether a target must be re-copied after its skill's canonical content changed: copy
/// targets, and every target of a tool that cannot use links, as long as the tool is still
/// installed. Link targets follow the canonical directory by themselves.
pub fn needs_resync(target: &SkillTargetRecord, tool_installed: bool) -> (r: bool)
    ensures
        r == (tool_installed && (target.mode@ == "copy"@ || target.tool@ == link_incapable_tool())),
{
    proof {
        reveal_strlit("copy");
        reveal_strlit("cursor");
    }
    tool_installed && (crate::text::str_eq(target.mode.as_str(), "copy") || crate::text::str_eq(
        target.tool.as_str(),
        "cursor",
    ))
}

/// The target's row after a re-sync attempt at `now_ms`: on success, with the resolved path
/// and mode `copy`, status `ok` and no error; on failure, the row keeps its path and mode and
/// records status `error` with the message. A failure touches no other row.
pub fn target_after_sync(
    target: &SkillTargetRecord,
    outcome: Result<String, String>,
    now_ms: i64,
) -> (r: SkillTargetRecord)
    ensures
        r.id@ == target.id@,
        r.skill_id@ == target.skill_id@,
        r.tool@ == target.tool@,
        outcome matches Ok(p) ==> {
            &&& r.target_path@ == p@
            &&& r.mode@ == "copy"@
            &&& r.status@ == "ok"@
            &&& r.last_error is None
            &&& r.synced_at == Some(now_ms)
        },
        outcome matches Err(e) ==> {
            &&& r.target_path@ == target.target_path@
            &&& r.mode@ == target.mode@
            &&& r.status@ == "error"@
            &&& opt_view(r.last_error) == Some(e@)
            &&& r.synced_at == target.synced_at
        },
{
    match outcome {
        Ok(p) => SkillTargetRecord {
            id: target.id.clone(),
            skill_id: target.skill_id.clone(),
            tool: target.tool.clone(),
            target_path: p,
            mode: String::from_str("copy"),
            status: String::from_str("ok"),
            last_error: None,
            synced_at: Some(now_ms),
        },
        Err(e) => SkillTargetRecord {
            id: target.id.clone(),
            skill_id: target.skill_id.clone(),
            tool: target.tool.clone(),
            target_path: target.target_path.clone(),
            mode: target.mode.clone(),
            status: String::from_str("error"),
            last_error: Some(e),
            synced_at: target.synced_at,
        },
    }
}

/// The name of the sibling directory an update stages new content in.
pub fn staging_dir_name() -> (r: String)
    ensures
        r@.len() == 19 + 36,
        r@.subrange(0, 19) == ".skills-hub-update-"@,
{
    proof {
        reveal_strlit(".skills-hub-update-");
    }
    let id = new_uuid();
    String::from_str(".skills-hub-update-").concat(id.as_str())
}

/// A skill offered for install from a git repository.
pub struct GitSkillCandidate {
    pub name: String,
    pub description: Option<String>,
    pub subpath: String,
}

/// A skill offered for install from a local directory, with why it cannot be installed when
/// it is not valid.
pub struct LocalSkillCandidate {
    pub name: String,
    pub description: Option<String>,
    pub subpath: String,
    pub valid: bool,
    pub reason: Option<String>,
}

/// A repository skill directory as a candidate: named by its descriptor when that parsed,
/// else by its directory name.
pub fn git_candidate(
    dir_name: &str,
    subpath: String,
    descriptor: Option<(String, Option<String>)>,
) -> (r: GitSkillCandidate)
    ensures
        r.subpath@ == subpath@,
        descriptor matches Some((n, d)) ==> r.name@ == n@ && opt_view(r.description) == opt_view(d),
        descriptor is None ==> r.name@ == dir_name@ && r.description is None,
{
    match descriptor {
        Some((name, description)) => GitSkillCandidate { name, description, subpath },
        None => GitSkillCandidate { name: String::from_str(dir_name), description: None, subpath },
    }
}

pub open spec fn missing_descriptor_reason() -> Seq<char> {
    "missing_skill_md"@
}

/// A local skill directory as a candidate. `descriptor` is `None` when the directory has no
/// descriptor file, else the result of validating it; an invalid directory is named by its
/// directory name and carries the reason code.
pub fn local_candidate(
    dir_name: &str,
    subpath: String,
    descriptor: Option<Result<(String, Option<String>), DescriptorError>>,
) -> (r: LocalSkillCandidate)
    ensures
        r.subpath@ == subpath@,
        r.valid == (descriptor matches Some(Ok(_))),
        descriptor matches Some(Ok((n, d))) ==> r.name@ == n@ && opt_view(r.description)
            == opt_view(d) && r.reason is None,
        descriptor is None ==> r.name@ == dir_name@ && r.description is None && opt_view(
            r.reason,
        ) == Some(missing_descriptor_reason()),
        descriptor matches Some(Err(e)) ==> r.name@ == dir_name@ && r.description is None
            && opt_view(r.reason) == Some(reason_code(e)),
{
    match descriptor {
        None => LocalSkillCandidate {
            name: String::from_str(dir_name),
            description: None,
            subpath,
            valid: false,
            reason: Some(String::from_str("missing_skill_md")),
        },
        Some(Ok((name, description))) => LocalSkillCandidate {
            name,
            description,
            subpath,
            valid: true,
            reason: None,
        },
        Some(Err(e)) => LocalSkillCandidate {
            name: String::from_str(dir_name),
            description: None,
            subpath,
            valid: false,
            reason: Some(String::from_str(e.reason())),
        },
    }
}

pub open spec fn root_skill_name() -> Seq<char> {
    "root-skill"@
}

/// The name of a skill at a directory's root when its descriptor gives none: the
/// directory's own name, or `root-skill` when that is empty.
pub fn root_fallback_name(dir_name: &str) -> (r: String)
    ensures
        dir_name@.len() > 0 ==> r@ == dir_name@,
        dir_name@.len() == 0 ==> r@ == root_skill_name(),
{
    if dir_name.unicode_len() == 0 {
        String::from_str("root-skill")
    } else {
        String::from_str(dir_name)
    }
}

} // verus!
