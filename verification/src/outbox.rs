//! The durable audit outbox: the statements that install it (an outbox table, immutable audit
//! tables, and a trigger per audited table and action that queues a change), and the signing
//! of a queued change into an audit event.
use vstd::prelude::*;
use crate::audit::{event_signed_from, AuditError, NewSignedEvent, SignedEventEnvelope};
use crate::crypto::hex_lower;
use crate::signing::KeyPair;
use crate::text::{concat_str, replace_all, replaced, to_owned_string};

verus! {

/// Most queued changes signed in one drain.
pub const DRAIN_BATCH_LIMIT: usize = 100;

/// The statements run before the triggers: an index for peer results, the outbox table,
/// and triggers that make audit events and attestations immutable.
pub const INSTALL_BASE_SQL: &'static str = "CREATE INDEX IF NOT EXISTS idx_peer_result_identity ON peer_results(peer_id, monitor_uuid, timestamp);
        CREATE TABLE IF NOT EXISTS audit_outbox (
        id INTEGER PRIMARY KEY AUTOINCREMENT,
        event_type TEXT NOT NULL,
        resource_type TEXT NOT NULL,
        resource_id TEXT NOT NULL,
        payload_json TEXT NOT NULL
    );
    CREATE TRIGGER IF NOT EXISTS audit_events_no_update BEFORE UPDATE ON audit_events
    BEGIN SELECT RAISE(ABORT, 'audit events are immutable'); END;
    CREATE TRIGGER IF NOT EXISTS audit_events_no_delete BEFORE DELETE ON audit_events
    BEGIN SELECT RAISE(ABORT, 'audit events are immutable'); END;
    CREATE TRIGGER IF NOT EXISTS audit_attestations_no_update BEFORE UPDATE ON audit_attestations
    BEGIN SELECT RAISE(ABORT, 'audit attestations are immutable'); END;
    CREATE TRIGGER IF NOT EXISTS audit_attestations_no_delete BEFORE DELETE ON audit_attestations
    BEGIN SELECT RAISE(ABORT, 'audit attestations are immutable'); END;";

/// Audited columns of `monitors` (`{row}` stands for `NEW` or `OLD`).
pub const MONITOR_COLUMNS: &'static str = "'name', {row}.name, 'target', {row}.target, 'check_type', {row}.check_type, 'enabled', {row}.enabled, 'interval_seconds', {row}.interval_seconds, 'timeout_seconds', {row}.timeout_seconds, 'visibility', {row}.visibility";

/// Audited columns of `monitor_results`.
pub const RESULT_COLUMNS: &'static str = "'monitor_uuid', {row}.monitor_uuid, 'timestamp', {row}.timestamp, 'status', {row}.status, 'latency_ms', {row}.latency_ms, 'peer_id', {row}.peer_id, 'signature', hex({row}.signature)";

/// Audited columns of `peer_results`.
pub const PEER_RESULT_COLUMNS: &'static str = "'monitor_uuid', {row}.monitor_uuid, 'timestamp', {row}.timestamp, 'status', {row}.status, 'peer_id', {row}.peer_id, 'signature', hex({row}.signature), 'verified', {row}.verified";

/// Audited columns of `status_pages`.
pub const STATUS_PAGE_COLUMNS: &'static str = "'title', {row}.title, 'slug', {row}.slug, 'is_active', {row}.is_active";

/// Audited columns of `status_page_monitors`.
pub const STATUS_PAGE_BINDING_COLUMNS: &'static str = "'monitor_uuid', {row}.monitor_uuid";

/// A change that a trigger captures.
#[derive(Debug, Clone, Copy, PartialEq, Eq, Structural)]
pub enum TriggerAction {
    Insert,
    Update,
    Delete,
}

/// The SQL name of an action.
pub open spec fn action_name(a: TriggerAction) -> Seq<char> {
    match a {
        TriggerAction::Insert => "INSERT"@,
        TriggerAction::Update => "UPDATE"@,
        TriggerAction::Delete => "DELETE"@,
    }
}

/// The row a trigger reads: the old one for a deletion, the new one otherwise.
pub open spec fn row_of(a: TriggerAction) -> Seq<char> {
    match a {
        TriggerAction::Delete => "OLD"@,
        _ => "NEW"@,
    }
}

/// The event suffix of an action.
pub open spec fn event_of(a: TriggerAction) -> Seq<char> {
    match a {
        TriggerAction::Insert => "created"@,
        TriggerAction::Update => "updated"@,
        TriggerAction::Delete => "deleted"@,
    }
}

/// The trigger clause of an action: status pages are audited only for updates of their
/// displayed columns.
pub open spec fn clause_of(table: Seq<char>, a: TriggerAction) -> Seq<char> {
    if a == TriggerAction::Update && table == "status_pages"@ {
        "UPDATE OF title, slug, description, logo_url, primary_color, is_active"@
    } else {
        action_name(a)
    }
}

/// The statement creating the trigger that queues `a` changes of `table` as
/// `storage.{resource}.{event}` events keyed by column `key`, with the given columns.
pub open spec fn trigger_sql_text(
    table: Seq<char>,
    resource: Seq<char>,
    key: Seq<char>,
    columns: Seq<char>,
    a: TriggerAction,
) -> Seq<char> {
    "CREATE TRIGGER IF NOT EXISTS audit_"@ + table + "_"@ + action_name(a) + "\n                AFTER "@
        + clause_of(table, a) + " ON "@ + table
        + " BEGIN\n                INSERT INTO audit_outbox(event_type, resource_type, resource_id, payload_json)\n                VALUES ('storage."@
        + resource + "."@ + event_of(a) + "', '"@ + resource + "', CAST("@ + row_of(a) + "."@ + key
        + " AS TEXT),\n                    json_object('observed_at', unixepoch(), "@ + replaced(
        columns,
        "{row}"@,
        row_of(a),
    ) + ")); END;"@
}

fn action_str(a: TriggerAction) -> (r: &'static str)
    ensures
        r@ == action_name(a),
{
    match a {
        TriggerAction::Insert => "INSERT",
        TriggerAction::Update => "UPDATE",
        TriggerAction::Delete => "DELETE",
    }
}

fn row_str(a: TriggerAction) -> (r: &'static str)
    ensures
        r@ == row_of(a),
{
    match a {
        TriggerAction::Delete => "OLD",
        _ => "NEW",
    }
}

fn event_str(a: TriggerAction) -> (r: &'static str)
    ensures
        r@ == event_of(a),
{
    match a {
        TriggerAction::Insert => "created",
        TriggerAction::Update => "updated",
        TriggerAction::Delete => "deleted",
    }
}

/// Appends `b` to `a`.
fn append(a: String, b: &str) -> (r: String)
    ensures
        r@ == a@ + b@,
{
    concat_str(a.as_str(), b)
}

/// The statement creating one audit trigger.
pub fn trigger_sql(table: &str, resource: &str, key: &str, columns: &str, action: TriggerAction) -> (r: String)
    ensures
        r@ == trigger_sql_text(table@, resource@, key@, columns@, action),
{
    proof {
        reveal_strlit("{row}");
    }
    let row = row_str(action);
    let cols = replace_all(columns, "{row}", row);
    let clause: &str = if action == TriggerAction::Update && crate::text::str_equal(table, "status_pages") {
        "UPDATE OF title, slug, description, logo_url, primary_color, is_active"
    } else {
        action_str(action)
    };
    let mut s = to_owned_string("CREATE TRIGGER IF NOT EXISTS audit_");
    s = append(s, table);
    s = append(s, "_");
    s = append(s, action_str(action));
    s = append(s, "\n                AFTER ");
    s = append(s, clause);
    s = append(s, " ON ");
    s = append(s, table);
    s = append(s, " BEGIN\n                INSERT INTO audit_outbox(event_type, resource_type, resource_id, payload_json)\n                VALUES ('storage.");
    s = append(s, resource);
    s = append(s, ".");
    s = append(s, event_str(action));
    s = append(s, "', '");
    s = append(s, resource);
    s = append(s, "', CAST(");
    s = append(s, row);
    s = append(s, ".");
    s = append(s, key);
    s = append(s, " AS TEXT),\n                    json_object('observed_at', unixepoch(), ");
    s = append(s, cols.as_str());
    s = append(s, ")); END;");
    assert(s@ =~= trigger_sql_text(table@, resource@, key@, columns@, action));
    s
}

/// One audited table: its resource name, key column, audited columns and actions.
pub open spec fn audited(i: int) -> (Seq<char>, Seq<char>, Seq<char>, Seq<char>, Seq<TriggerAction>) {
    if i == 0 {
        ("monitors"@, "monitor"@, "uuid"@, MONITOR_COLUMNS@, seq![TriggerAction::Insert, TriggerAction::Update, TriggerAction::Delete])
    } else if i == 1 {
        ("monitor_results"@, "result"@, "id"@, RESULT_COLUMNS@, seq![TriggerAction::Insert])
    } else if i == 2 {
        ("peer_results"@, "peer_result"@, "id"@, PEER_RESULT_COLUMNS@, seq![TriggerAction::Insert])
    } else if i == 3 {
        ("status_pages"@, "status_page"@, "uuid"@, STATUS_PAGE_COLUMNS@, seq![TriggerAction::Insert, TriggerAction::Update, TriggerAction::Delete])
    } else {
        ("status_page_monitors"@, "status_page_binding"@, "status_page_id"@, STATUS_PAGE_BINDING_COLUMNS@, seq![TriggerAction::Insert, TriggerAction::Delete])
    }
}

/// The trigger statements of audited tables `0..n`, table by table, action by action.
pub open spec fn trigger_statements(n: int) -> Seq<Seq<char>>
    decreases n,
{
    if n <= 0 {
        seq![]
    } else {
        let t = audited(n - 1);
        trigger_statements(n - 1) + t.4.map_values(|a: TriggerAction| trigger_sql_text(t.0, t.1, t.2, t.3, a))
    }
}

/// The statements that install the outbox, in the order they run.
pub open spec fn install_statements_text() -> Seq<Seq<char>> {
    seq![INSTALL_BASE_SQL@] + trigger_statements(5)
}

fn push_table_triggers(
    out: &mut Vec<String>,
    table: &str,
    resource: &str,
    key: &str,
    columns: &str,
    actions: &[TriggerAction],
)
    ensures
        final(out)@.map_values(|s: String| s@) == old(out)@.map_values(|s: String| s@) + actions@.map_values(
            |a: TriggerAction| trigger_sql_text(table@, resource@, key@, columns@, a),
        ),
{
    let mut i: usize = 0;
    while i < actions.len()
        invariant
            i <= actions@.len(),
            out@.map_values(|s: String| s@) == old(out)@.map_values(|s: String| s@) + actions@.take(i as int).map_values(
                |a: TriggerAction| trigger_sql_text(table@, resource@, key@, columns@, a),
            ),
        decreases actions@.len() - i,
    {
        let ghost before = out@;
        out.push(trigger_sql(table, resource, key, columns, actions[i]));
        proof {
            assert(actions@.take(i + 1) =~= actions@.take(i as int).push(actions@[i as int]));
            assert(out@.map_values(|s: String| s@) =~= before.map_values(|s: String| s@).push(
                trigger_sql_text(table@, resource@, key@, columns@, actions@[i as int]),
            ));
        }
        i = i + 1;
    }
    assert(actions@.take(actions@.len() as int) =~= actions@);
}

/// The statements that install the outbox: the base statements, then one trigger per
/// audited table and action.
pub fn install_statements() -> (r: Vec<String>)
    ensures
        r@.map_values(|s: String| s@) == install_statements_text(),
{
    let mut out: Vec<String> = Vec::new();
    out.push(to_owned_string(INSTALL_BASE_SQL));
    let all = [TriggerAction::Insert, TriggerAction::Update, TriggerAction::Delete];
    let insert_only = [TriggerAction::Insert];
    let insert_delete = [TriggerAction::Insert, TriggerAction::Delete];
    proof {
        reveal_with_fuel(trigger_statements, 6);
        assert(all@ =~= audited(0).4);
        assert(insert_only@ =~= audited(1).4);
        assert(insert_delete@ =~= audited(4).4);
    }
    push_table_triggers(&mut out, "monitors", "monitor", "uuid", MONITOR_COLUMNS, &all);
    push_table_triggers(&mut out, "monitor_results", "result", "id", RESULT_COLUMNS, &insert_only);
    push_table_triggers(&mut out, "peer_results", "peer_result", "id", PEER_RESULT_COLUMNS, &insert_only);
    push_table_triggers(&mut out, "status_pages", "status_page", "uuid", STATUS_PAGE_COLUMNS, &all);
    push_table_triggers(
        &mut out,
        "status_page_monitors",
        "status_page_binding",
        "status_page_id",
        STATUS_PAGE_BINDING_COLUMNS,
        &insert_delete,
    );
    assert(out@.map_values(|s: String| s@) =~= install_statements_text());
    out
}

/// Signs a queued change as an audit event of this node: the node's key is the actor, and
/// the event carries the change's type, resource and (canonical JSON) payload.
pub fn outbox_event(
    keypair: &KeyPair,
    event_type: String,
    resource_type: String,
    resource_id: String,
    payload_json: String,
) -> (r: Result<SignedEventEnvelope, AuditError>)
    requires
        keypair.wf(),
    ensures
        r matches Ok(e) && e.event_type@ == event_type@ && e.resource_type@ == resource_type@ && e.resource_id@
            == resource_id@ && e.payload_json@ == payload_json@ && e.actor_id@ == hex_lower(keypair.public_spec())
            && e.parent_event_id is None && e.capability_id is None && e.delegated_by is None && e.expires_at is None
            && e.context_json is None && exists|spec: NewSignedEvent|
            event_signed_from(e, spec, *keypair, e.event_id, e.created_at),
{
    let actor = keypair.public_key_hex();
    let spec = NewSignedEvent {
        event_type,
        actor_id: actor,
        resource_type,
        resource_id,
        parent_event_id: None,
        payload_json,
        capability_id: None,
        delegated_by: None,
        expires_at: None,
        context_json: None,
    };
    let ghost g = spec;
    let r = SignedEventEnvelope::sign(spec, keypair);
    proof {
        if r is Ok {
            let e = r->Ok_0;
            assert(event_signed_from(e, g, *keypair, e.event_id, e.created_at));
        }
    }
    r
}

} // verus!
