use uppe::outbox::{install_statements, outbox_event, trigger_sql, TriggerAction, INSTALL_BASE_SQL, MONITOR_COLUMNS};
use uppe::signing::generate_keypair;
use uppe::text::replace_all;

#[test]
fn install_creates_base_tables_then_one_trigger_per_action() {
    let statements = install_statements();
    assert_eq!(statements.len(), 11);
    assert_eq!(statements[0], INSTALL_BASE_SQL);
    assert!(statements[1].starts_with("CREATE TRIGGER IF NOT EXISTS audit_monitors_INSERT"));
    assert!(statements[10].starts_with("CREATE TRIGGER IF NOT EXISTS audit_status_page_monitors_DELETE"));
}

#[test]
fn delete_triggers_read_the_old_row() {
    let sql = trigger_sql("monitors", "monitor", "uuid", MONITOR_COLUMNS, TriggerAction::Delete);
    assert!(sql.contains("AFTER DELETE ON monitors BEGIN"));
    assert!(sql.contains("VALUES ('storage.monitor.deleted', 'monitor', CAST(OLD.uuid AS TEXT),"));
    assert!(sql.contains("'name', OLD.name"));
    assert!(!sql.contains("{row}"));
    assert!(sql.ends_with(")); END;"));
}

#[test]
fn status_page_updates_watch_displayed_columns() {
    let sql = trigger_sql("status_pages", "status_page", "uuid", "'title', {row}.title", TriggerAction::Update);
    assert!(sql.contains("AFTER UPDATE OF title, slug, description, logo_url, primary_color, is_active ON status_pages"));
    assert!(sql.contains("'storage.status_page.updated'"));
    assert!(sql.contains("NEW.title"));
}

#[test]
fn replace_all_replaces_every_occurrence() {
    assert_eq!(replace_all("a{x}b{x}", "{x}", "NEW"), "aNEWbNEW");
    assert_eq!(replace_all("aaa", "aa", "b"), "ba");
    assert_eq!(replace_all("none", "{x}", "y"), "none");
}

#[test]
fn queued_changes_become_verifiable_events() {
    let keypair = generate_keypair();
    let event = outbox_event(
        &keypair,
        "storage.monitor.created".into(),
        "monitor".into(),
        "m-1".into(),
        r#"{"name":"Test"}"#.into(),
    )
    .unwrap();
    assert_eq!(event.actor_id, keypair.public_key_hex());
    assert!(event.verify().unwrap());
}
