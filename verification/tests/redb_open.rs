use record_store::redb_open::{migration_failure, MigrationFault, OpenFailure};

#[test]
fn a_storage_failure_is_passed_on() {
    assert_eq!(migration_failure(MigrationFault::Storage), OpenFailure::Storage);
}

#[test]
fn a_refused_migration_is_reported_as_corruption() {
    assert_eq!(
        migration_failure(MigrationFault::Refused("savepoint exists".to_string())),
        OpenFailure::Corrupted("redb file format migration failed: savepoint exists".to_string())
    );
}
