use skills_hub::store::{MetadataFormat, SchemaUpgrade, SkillMetadata, SkillStore, StoreError};

#[test]
fn metadata_file_preference() {
    let f = SkillMetadata::load(true, true, true).unwrap();
    assert_eq!((f.file_name.as_str(), f.format), ("skill.yaml", MetadataFormat::Yaml));
    let f = SkillMetadata::load(false, true, true).unwrap();
    assert_eq!((f.file_name.as_str(), f.format), ("skill.yml", MetadataFormat::Yaml));
    let f = SkillMetadata::load(false, false, true).unwrap();
    assert_eq!((f.file_name.as_str(), f.format), ("skill.json", MetadataFormat::Json));
    assert!(SkillMetadata::load(false, false, false).is_none());
}

#[test]
fn schema_decisions() {
    let store = SkillStore::new("/tmp/skills_hub.db".to_string());
    assert_eq!(store.db_path(), "/tmp/skills_hub.db");
    assert_eq!(store.ensure_schema(0), Ok(SchemaUpgrade::CreateAll));
    assert_eq!(store.ensure_schema(1), Ok(SchemaUpgrade::AddMetadataColumn));
    assert_eq!(store.ensure_schema(2), Ok(SchemaUpgrade::UpToDate));
    assert_eq!(store.ensure_schema(3), Err(StoreError::SchemaTooNew { found: 3 }));
}

#[test]
fn onboarding_setting() {
    let store = SkillStore::new("db".to_string());
    assert_eq!(store.set_onboarding_completed(true), ("onboarding_completed".to_string(), "true".to_string()));
    assert_eq!(store.set_onboarding_completed(false).1, "false");
}
