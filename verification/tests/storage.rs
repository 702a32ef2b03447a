use mindcore::error::MindCoreError;
use mindcore::storage::encryption::EncryptionKey;
use mindcore::storage::migrations::{
    migration_steps, parse_version, plan_migration, version_text, MigrationPlan, CURRENT_VERSION,
};

#[test]
fn passphrase_pragma() {
    let key = EncryptionKey::Passphrase("my secret".into());
    let pragma = key.as_pragma_value();
    assert!(pragma.contains("my secret"));
}

#[test]
fn raw_key_pragma() {
    let key = EncryptionKey::RawKey([0xab; 32]);
    let pragma = key.as_pragma_value();
    assert!(pragma.contains("abab"));
}

#[test]
fn passphrase_escapes_quotes() {
    let key = EncryptionKey::Passphrase("it's a test".into());
    let pragma = key.as_pragma_value();
    assert!(pragma.contains("it''s a test"));
}

#[test]
fn pragma_values_exact() {
    assert_eq!(EncryptionKey::Passphrase("a'b".into()).as_pragma_value(), "'a''b'");
    let mut raw = [0u8; 32];
    raw[0] = 0x01;
    raw[31] = 0xfe;
    let v = EncryptionKey::RawKey(raw).as_pragma_value();
    assert_eq!(v.len(), 69);
    assert!(v.starts_with("\"x'01000000"));
    assert!(v.ends_with("0000fe'\""));
}

#[test]
fn version_roundtrip() {
    assert_eq!(parse_version(Some(&version_text(42))), Ok(42));
    assert_eq!(version_text(CURRENT_VERSION), "1");
}

#[test]
fn rejects_newer_version() {
    let result = plan_migration(CURRENT_VERSION + 1);
    assert!(result.is_err());
    let err = result.unwrap_err().to_string();
    assert!(err.contains("newer than this build"), "unexpected error: {err}");
}

#[test]
fn migrate_is_idempotent() {
    assert_eq!(plan_migration(0), Ok(MigrationPlan::CreateSchema));
    let stored = version_text(CURRENT_VERSION);
    let version = parse_version(Some(&stored)).expect("stored version");
    assert_eq!(plan_migration(version), Ok(MigrationPlan::UpToDate));
}

#[test]
fn version_parsing() {
    assert_eq!(parse_version(None), Ok(0));
    assert_eq!(parse_version(Some("+7")), Ok(7));
    assert_eq!(
        parse_version(Some("abc")),
        Err(MindCoreError::Migration("invalid schema version 'abc'".into()))
    );
    assert!(parse_version(Some("4294967296")).is_err());
    assert!(parse_version(Some("")).is_err());
}

#[test]
fn migration_step_selection() {
    assert!(migration_steps(0, 0).is_empty());
    assert!(migration_steps(1, 5).is_empty());
}

#[test]
fn migrate_fresh_database() {
    // A fresh database holds no version: it gets the schema and the current version.
    let version = parse_version(None).expect("fresh database");
    assert_eq!(version, 0);
    assert_eq!(plan_migration(version), Ok(MigrationPlan::CreateSchema));
    assert_eq!(parse_version(Some(&version_text(CURRENT_VERSION))), Ok(CURRENT_VERSION));
}
