//! Registry records and the decisions the registry store makes about its schema and settings.
use vstd::prelude::*;
use crate::source::opt_view;

verus! {

/// Parsed descriptor metadata of a skill bundle.
pub struct SkillMetadata {
    pub name: String,
    pub version: String,
    pub description: Option<String>,
    pub author: Option<String>,
    pub tags: Vec<String>,
    pub dependencies: Vec<String>,
}

/// The syntax of a metadata file.
#[derive(PartialEq, Eq, Structural, Clone, Copy, Debug)]
pub enum MetadataFormat {
    Yaml,
    Json,
}

/// The metadata file to read from a bundle, and how to parse it.
pub struct MetadataFile {
    pub file_name: String,
    pub format: MetadataFormat,
}

impl SkillMetadata {
    /// Picks the metadata file of a bundle: `skill.yaml`, else `skill.yml`, else `skill.json`,
    /// by which of them exist; `None` when none does.
    pub fn load(has_yaml: bool, has_yml: bool, has_json: bool) -> (r: Option<MetadataFile>)
        ensures
            r is None <==> !has_yaml && !has_yml && !has_json,
            r matches Some(f) ==> {
                &&& has_yaml ==> f.file_name@ == "skill.yaml"@ && f.format == MetadataFormat::Yaml
                &&& !has_yaml && has_yml ==> f.file_name@ == "skill.yml"@ && f.format
                    == MetadataFormat::Yaml
                &&& !has_yaml && !has_yml ==> f.file_name@ == "skill.json"@ && f.format
                    == MetadataFormat::Json
            },
    {
        if has_yaml {
            Some(MetadataFile { file_name: String::from_str("skill.yaml"), format: MetadataFormat::Yaml })
        } else if has_yml {
            Some(MetadataFile { file_name: String::from_str("skill.yml"), format: MetadataFormat::Yaml })
        } else if has_json {
            Some(MetadataFile { file_name: String::from_str("skill.json"), format: MetadataFormat::Json })
        } else {
            None
        }
    }
}

/// A managed skill, as the registry records it.
pub struct SkillRecord {
    pub id: String,
    pub name: String,
    pub source_type: String,
    pub source_ref: Option<String>,
    pub source_revision: Option<String>,
    pub central_path: String,
    pub content_hash: Option<String>,
    pub created_at: i64,
    pub updated_at: i64,
    pub last_sync_at: Option<i64>,
    pub last_seen_at: i64,
    pub status: String,
    pub metadata: Option<SkillMetadata>,
}

/// A tool directory a skill is propagated into.
pub struct SkillTargetRecord {
    pub id: String,
    pub skill_id: String,
    pub tool: String,
    pub target_path: String,
    pub mode: String,
    pub status: String,
    pub last_error: Option<String>,
    pub synced_at: Option<i64>,
}

/// The registry, kept in a database file.
pub struct SkillStore {
    db_path: String,
}

/// The schema version this library writes.
pub const SCHEMA_VERSION: i32 = 2;

/// What bringing a database up to the current schema takes.
#[derive(PartialEq, Eq, Structural, Clone, Copy, Debug)]
pub enum SchemaUpgrade {
    /// A new database: create every table, add the metadata column, record the version.
    CreateAll,
    /// A first-version database: add the metadata column and record the version.
    AddMetadataColumn,
    /// Nothing to do.
    UpToDate,
}

/// Why the registry cannot be used.
#[derive(PartialEq, Eq, Structural, Clone, Copy, Debug)]
pub enum StoreError {
    /// The database was written by a newer version of the schema.
    SchemaTooNew { found: i32 },
}

impl SkillStore {
    pub fn new(db_path: String) -> (r: Self)
        ensures
            r.path_view() == db_path@,
    {
        SkillStore { db_path }
    }

    pub closed spec fn path_view(&self) -> Seq<char> {
        self.db_path@
    }

    pub fn db_path(&self) -> (r: &str)
        ensures
            r@ == self.path_view(),
    {
        self.db_path.as_str()
    }

    /// Given the database's `user_version`, decides how to bring it to the current schema.
    pub fn ensure_schema(&self, user_version: i32) -> (r: Result<SchemaUpgrade, StoreError>)
        ensures
            user_version == 0 ==> r == Ok::<SchemaUpgrade, StoreError>(SchemaUpgrade::CreateAll),
            user_version == 1 ==> r == Ok::<SchemaUpgrade, StoreError>(SchemaUpgrade::AddMetadataColumn),
            user_version > SCHEMA_VERSION ==> r == Err::<SchemaUpgrade, StoreError>(
                StoreError::SchemaTooNew { found: user_version },
            ),
            (user_version < 0 || user_version == SCHEMA_VERSION) ==> r == Ok::<
                SchemaUpgrade,
                StoreError,
            >(SchemaUpgrade::UpToDate),
    {
        if user_version == 0 {
            Ok(SchemaUpgrade::CreateAll)
        } else if user_version == 1 {
            Ok(SchemaUpgrade::AddMetadataColumn)
        } else if user_version > SCHEMA_VERSION {
            Err(StoreError::SchemaTooNew { found: user_version })
        } else {
            Ok(SchemaUpgrade::UpToDate)
        }
    }

    /// The setting written to record whether onboarding is done: its key and its value.
    pub fn set_onboarding_completed(&self, completed: bool) -> (r: (String, String))
        ensures
            r.0@ == "onboarding_completed"@,
            r.1@ == if completed {
                "true"@
            } else {
                "false"@
            },
    {
        let value = if completed {
            String::from_str("true")
        } else {
            String::from_str("false")
        };
        (String::from_str("onboarding_completed"), value)
    }
}

} // verus!
