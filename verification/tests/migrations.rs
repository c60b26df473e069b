use uppe::migrations::{migration_plan, MigrationError, SCHEMA_VERSION};

#[test]
fn fresh_database_runs_every_migration_in_order() {
    let steps = migration_plan(0).unwrap();
    assert_eq!(steps.len(), 8);
    let versions: Vec<i32> = steps.iter().map(|s| s.version).collect();
    assert_eq!(versions, vec![1, 2, 3, 4, 5, 6, 7, 8]);
    assert_eq!(steps[0].description, "Initial schema");
    assert_eq!(steps[6].description, "Durable signed audit outbox");
}

#[test]
fn partially_migrated_database_runs_the_rest() {
    let steps = migration_plan(5).unwrap();
    let versions: Vec<i32> = steps.iter().map(|s| s.version).collect();
    assert_eq!(versions, vec![6, 7, 8]);
}

#[test]
fn current_database_runs_nothing_and_newer_is_refused() {
    assert!(migration_plan(SCHEMA_VERSION).unwrap().is_empty());
    assert_eq!(migration_plan(9).unwrap_err(), MigrationError::SchemaNewer);
    assert_eq!(migration_plan(-3).unwrap().len(), 8);
}
