//! The audit events this node records about its own work: changes to monitors, results it
//! measured, and updates of the admin trust chain. Each payload is canonical JSON (an
//! object with sorted keys) and is signed into an event; storing it is up to the caller.
use vstd::prelude::*;
use crate::audit::{
    event_signed_from, opt_nat, opt_nat16, opt_view, AuditError, NewSignedEvent, SignedEventEnvelope,
};
use crate::crypto::hex_lower;
use crate::json::{
    decimal, json_int, json_key, json_opt_number, json_opt_string, json_string, push_decimal, push_json_key,
    push_json_string, push_opt_decimal, push_opt_json_string, push_str, push_uuid, uuid_text,
};
use crate::models::{status_text, CheckResult, Monitor, MonitorVisibility};
use crate::signing::KeyPair;
use crate::text::{str_equal, string_push};

verus! {

/// A JSON boolean.
pub open spec fn json_bool(b: bool) -> Seq<char> {
    if b {
        "true"@
    } else {
        "false"@
    }
}

fn push_bool(out: &mut String, b: bool)
    ensures
        final(out)@ == old(out)@ + json_bool(b),
{
    if b {
        push_str(out, "true");
    } else {
        push_str(out, "false");
    }
}

/// The name a visibility is recorded under.
pub open spec fn visibility_text(v: MonitorVisibility) -> Seq<char> {
    match v {
        MonitorVisibility::Public => "Public"@,
        MonitorVisibility::Private => "Private"@,
        MonitorVisibility::Internal => "Internal"@,
    }
}

fn visibility_str(v: MonitorVisibility) -> (r: &'static str)
    ensures
        r@ == visibility_text(v),
{
    match v {
        MonitorVisibility::Public => "Public",
        MonitorVisibility::Private => "Private",
        MonitorVisibility::Internal => "Internal",
    }
}

/// The event type of a monitor change: "monitor.created", "monitor.updated" or
/// "monitor.deleted"; any other action counts as an update.
pub open spec fn monitor_event_type_text(action: Seq<char>) -> Seq<char> {
    if action == "created"@ {
        "monitor.created"@
    } else if action == "deleted"@ {
        "monitor.deleted"@
    } else {
        "monitor.updated"@
    }
}

/// The event type of a monitor change.
pub fn monitor_event_type(action: &str) -> (r: &'static str)
    ensures
        r@ == monitor_event_type_text(action@),
{
    if str_equal(action, "created") {
        "monitor.created"
    } else if str_equal(action, "deleted") {
        "monitor.deleted"
    } else {
        "monitor.updated"
    }
}

/// Keys `action` to `monitor_uuid` of a monitor payload.
pub open spec fn monitor_payload_start(action: Seq<char>, m: Monitor) -> Seq<char> {
    seq!['{'] + json_key("action"@) + json_string(action) + seq![','] + json_key("check_type"@) + json_string(
        m.check_type@,
    ) + seq![','] + json_key("enabled"@) + json_bool(m.enabled) + seq![','] + json_key("interval_seconds"@)
        + decimal(m.interval_seconds as nat) + seq![','] + json_key("monitor_uuid"@) + json_string(
        uuid_text(m.uuid),
    ) + seq![',']
}

/// Keys `name` to `public_domain` of a monitor payload.
pub open spec fn monitor_payload_middle(m: Monitor) -> Seq<char> {
    json_key("name"@) + json_string(m.name@) + seq![','] + json_key("owner_peer_id"@) + json_opt_string(
        opt_view(m.owner_peer_id),
    ) + seq![','] + json_key("public_display_name"@) + json_opt_string(opt_view(m.public_display_name))
        + seq![','] + json_key("public_domain"@) + json_opt_string(opt_view(m.public_domain)) + seq![',']
}

/// Keys `target` to `visibility` of a monitor payload.
pub open spec fn monitor_payload_end(m: Monitor) -> Seq<char> {
    json_key("target"@) + json_string(m.target@) + seq![','] + json_key("timeout_seconds"@) + decimal(
        m.timeout_seconds as nat,
    ) + seq![','] + json_key("visibility"@) + json_string(visibility_text(m.visibility)) + seq!['}']
}

/// The canonical payload of a monitor change: the action and the monitor's settings.
pub open spec fn monitor_payload_text(action: Seq<char>, m: Monitor) -> Seq<char> {
    monitor_payload_start(action, m) + monitor_payload_middle(m) + monitor_payload_end(m)
}

fn push_monitor_start(s: &mut String, action: &str, m: &Monitor)
    ensures
        final(s)@ == old(s)@ + monitor_payload_start(action@, *m),
{
    let mut id = String::new();
    push_uuid(&mut id, m.uuid);
    string_push(s, '{');
    push_json_key(s, "action");
    push_json_string(s, action);
    string_push(s, ',');
    push_json_key(s, "check_type");
    push_json_string(s, m.check_type.as_str());
    string_push(s, ',');
    push_json_key(s, "enabled");
    push_bool(s, m.enabled);
    string_push(s, ',');
    push_json_key(s, "interval_seconds");
    push_decimal(s, m.interval_seconds);
    string_push(s, ',');
    push_json_key(s, "monitor_uuid");
    push_json_string(s, id.as_str());
    string_push(s, ',');
    assert(s@ =~= old(s)@ + monitor_payload_start(action@, *m));
}

#[verifier::rlimit(50)]
fn push_monitor_middle(s: &mut String, m: &Monitor)
    ensures
        final(s)@ == old(s)@ + monitor_payload_middle(*m),
{
    push_json_key(s, "name");
    push_json_string(s, m.name.as_str());
    string_push(s, ',');
    push_json_key(s, "owner_peer_id");
    push_opt_json_string(s, &m.owner_peer_id);
    string_push(s, ',');
    push_json_key(s, "public_display_name");
    push_opt_json_string(s, &m.public_display_name);
    string_push(s, ',');
    push_json_key(s, "public_domain");
    push_opt_json_string(s, &m.public_domain);
    string_push(s, ',');
    assert(s@ =~= old(s)@ + monitor_payload_middle(*m));
}

fn push_monitor_end(s: &mut String, m: &Monitor)
    ensures
        final(s)@ == old(s)@ + monitor_payload_end(*m),
{
    push_json_key(s, "target");
    push_json_string(s, m.target.as_str());
    string_push(s, ',');
    push_json_key(s, "timeout_seconds");
    push_decimal(s, m.timeout_seconds);
    string_push(s, ',');
    push_json_key(s, "visibility");
    push_json_string(s, visibility_str(m.visibility));
    string_push(s, '}');
    assert(s@ =~= old(s)@ + monitor_payload_end(*m));
}

/// The canonical payload of a monitor change.
pub fn monitor_payload(action: &str, monitor: &Monitor) -> (r: String)
    ensures
        r@ == monitor_payload_text(action@, *monitor),
{
    let mut s = String::new();
    push_monitor_start(&mut s, action, monitor);
    push_monitor_middle(&mut s, monitor);
    push_monitor_end(&mut s, monitor);
    assert(s@ =~= monitor_payload_text(action@, *monitor));
    s
}

/// Keys `check_type` to `peer_id` of a local result payload.
pub open spec fn result_payload_start(r: CheckResult) -> Seq<char> {
    seq!['{'] + json_key("check_type"@) + json_string(r.check_type@) + seq![','] + json_key("error_message"@)
        + json_opt_string(opt_view(r.error_message)) + seq![','] + json_key("latency_ms"@) + json_opt_number(
        opt_nat(r.latency_ms),
    ) + seq![','] + json_key("monitor_uuid"@) + json_string(uuid_text(r.monitor_id)) + seq![','] + json_key(
        "peer_id"@,
    ) + json_string(r.peer_id@) + seq![',']
}

/// Keys `source` to `status_code` of a local result payload.
pub open spec fn result_payload_middle(source: Seq<char>, r: CheckResult) -> Seq<char> {
    json_key("source"@) + json_string(source) + seq![','] + json_key("source_peer_id"@) + "null"@ + seq![',']
        + json_key("status"@) + json_string(status_text(r.status)) + seq![','] + json_key("status_code"@)
        + json_opt_number(opt_nat16(r.status_code)) + seq![',']
}

/// Keys `synced_from_peer` to `verified` of a local result payload.
pub open spec fn result_payload_end(r: CheckResult) -> Seq<char> {
    json_key("synced_from_peer"@) + "null"@ + seq![','] + json_key("target"@) + json_string(r.target@) + seq![',']
        + json_key("timestamp"@) + json_int(r.timestamp as int) + seq![','] + json_key("verified"@) + "null"@
        + seq!['}']
}

/// The canonical payload of a result this node measured: its fields, the source that
/// recorded it, and null for the fields only received results have.
pub open spec fn result_payload_text(source: Seq<char>, r: CheckResult) -> Seq<char> {
    result_payload_start(r) + result_payload_middle(source, r) + result_payload_end(r)
}

#[verifier::rlimit(50)]
fn push_result_start(s: &mut String, r: &CheckResult)
    ensures
        final(s)@ == old(s)@ + result_payload_start(*r),
{
    let mut id = String::new();
    push_uuid(&mut id, r.monitor_id);
    string_push(s, '{');
    push_json_key(s, "check_type");
    push_json_string(s, r.check_type.as_str());
    string_push(s, ',');
    push_json_key(s, "error_message");
    push_opt_json_string(s, &r.error_message);
    string_push(s, ',');
    push_json_key(s, "latency_ms");
    push_opt_decimal(s, r.latency_ms);
    string_push(s, ',');
    push_json_key(s, "monitor_uuid");
    push_json_string(s, id.as_str());
    string_push(s, ',');
    push_json_key(s, "peer_id");
    push_json_string(s, r.peer_id.as_str());
    string_push(s, ',');
    assert(s@ =~= old(s)@ + result_payload_start(*r));
}

fn push_result_middle(s: &mut String, source: &str, r: &CheckResult)
    ensures
        final(s)@ == old(s)@ + result_payload_middle(source@, *r),
{
    push_json_key(s, "source");
    push_json_string(s, source);
    string_push(s, ',');
    push_json_key(s, "source_peer_id");
    push_str(s, "null");
    string_push(s, ',');
    push_json_key(s, "status");
    push_json_string(s, r.status.as_str());
    string_push(s, ',');
    push_json_key(s, "status_code");
    let code: Option<u64> = match r.status_code {
        Some(c) => Some(c as u64),
        None => None,
    };
    push_opt_decimal(s, code);
    string_push(s, ',');
    assert(s@ =~= old(s)@ + result_payload_middle(source@, *r));
}

fn push_result_end(s: &mut String, r: &CheckResult)
    ensures
        final(s)@ == old(s)@ + result_payload_end(*r),
{
    push_json_key(s, "synced_from_peer");
    push_str(s, "null");
    string_push(s, ',');
    push_json_key(s, "target");
    push_json_string(s, r.target.as_str());
    string_push(s, ',');
    push_json_key(s, "timestamp");
    push_decimal(s, r.timestamp);
    string_push(s, ',');
    push_json_key(s, "verified");
    push_str(s, "null");
    string_push(s, '}');
    assert(s@ =~= old(s)@ + result_payload_end(*r));
}

/// The canonical payload of a result this node measured.
pub fn local_result_payload(source: &str, result: &CheckResult) -> (r: String)
    ensures
        r@ == result_payload_text(source@, *result),
{
    let mut s = String::new();
    push_result_start(&mut s, result);
    push_result_middle(&mut s, source, result);
    push_result_end(&mut s, result);
    assert(s@ =~= result_payload_text(source@, *result));
    s
}

/// The canonical payload of an admin trust chain update.
pub open spec fn admin_trust_payload_text(
    action: Seq<char>,
    source: Seq<char>,
    version: u64,
    previous_version: Option<u64>,
    key_count: usize,
    rotation_count: usize,
    revoked_key_count: usize,
) -> Seq<char> {
    seq!['{'] + json_key("action"@) + json_string(action) + seq![','] + json_key("key_count"@) + decimal(
        key_count as nat,
    ) + seq![','] + json_key("previous_version"@) + json_opt_number(opt_nat(previous_version)) + seq![',']
        + json_key("revoked_key_count"@) + decimal(revoked_key_count as nat) + seq![','] + json_key(
        "rotation_count"@,
    ) + decimal(rotation_count as nat) + seq![','] + json_key("source"@) + json_string(source) + seq![',']
        + json_key("version"@) + decimal(version as nat) + seq!['}']
}

/// The canonical payload of an admin trust chain update.
pub fn admin_trust_payload(
    action: &str,
    source: &str,
    version: u64,
    previous_version: Option<u64>,
    key_count: usize,
    rotation_count: usize,
    revoked_key_count: usize,
) -> (r: String)
    ensures
        r@ == admin_trust_payload_text(
            action@,
            source@,
            version,
            previous_version,
            key_count,
            rotation_count,
            revoked_key_count,
        ),
{
    let mut s = String::new();
    string_push(&mut s, '{');
    push_json_key(&mut s, "action");
    push_json_string(&mut s, action);
    string_push(&mut s, ',');
    push_json_key(&mut s, "key_count");
    push_decimal(&mut s, key_count as u64);
    string_push(&mut s, ',');
    push_json_key(&mut s, "previous_version");
    push_opt_decimal(&mut s, previous_version);
    string_push(&mut s, ',');
    let ghost mid = s@;
    push_json_key(&mut s, "revoked_key_count");
    push_decimal(&mut s, revoked_key_count as u64);
    string_push(&mut s, ',');
    push_json_key(&mut s, "rotation_count");
    push_decimal(&mut s, rotation_count as u64);
    string_push(&mut s, ',');
    push_json_key(&mut s, "source");
    push_json_string(&mut s, source);
    string_push(&mut s, ',');
    push_json_key(&mut s, "version");
    push_decimal(&mut s, version);
    string_push(&mut s, '}');
    assert(s@ =~= admin_trust_payload_text(
        action@,
        source@,
        version,
        previous_version,
        key_count,
        rotation_count,
        revoked_key_count,
    ));
    s
}

/// `e` is an event of type `event_type` about resource `resource_type`/`resource_id` with
/// `payload`, signed by `keypair` as `actor_id` with id `event_id` at `now`, with no
/// parent, capability, delegation, expiry or context.
pub open spec fn plain_event(
    e: SignedEventEnvelope,
    keypair: KeyPair,
    actor_id: Seq<char>,
    event_type: Seq<char>,
    resource_type: Seq<char>,
    resource_id: Seq<char>,
    payload: Seq<char>,
    event_id: u128,
    now: i64,
) -> bool {
    &&& e.event_id == event_id
    &&& e.event_type@ == event_type
    &&& e.schema_version == 1
    &&& e.created_at == now
    &&& e.actor_id@ == actor_id
    &&& e.actor_public_key@ == keypair.public_spec()
    &&& e.resource_type@ == resource_type
    &&& e.resource_id@ == resource_id
    &&& e.parent_event_id is None
    &&& e.payload_json@ == payload
    &&& e.payload_hash@ == crate::audit::payload_hash_of(payload)
    &&& e.capability_id is None
    &&& e.delegated_by is None
    &&& e.expires_at is None
    &&& e.context_json is None
    &&& e.signature@ == crate::signing::ed25519_signature_of(
        keypair.secret_spec(),
        crate::audit::event_signing_bytes(e),
    )
    &&& e.signature@.len() == 64
}

/// Signs a plain event (no parent, capability, delegation, expiry or context).
fn sign_plain_event(
    keypair: &KeyPair,
    actor_id: &str,
    event_type: &str,
    resource_type: &str,
    resource_id: String,
    payload_json: String,
    event_id: u128,
    now: i64,
) -> (r: Result<SignedEventEnvelope, AuditError>)
    requires
        keypair.wf(),
    ensures
        actor_id@ != hex_lower(keypair.public_spec()) ==> r == Err::<SignedEventEnvelope, AuditError>(
            AuditError::ActorKeyMismatch,
        ),
        actor_id@ == hex_lower(keypair.public_spec()) ==> (r matches Ok(e) && plain_event(
            e,
            *keypair,
            actor_id@,
            event_type@,
            resource_type@,
            resource_id@,
            payload_json@,
            event_id,
            now,
        )),
{
    let spec = NewSignedEvent {
        event_type: event_type.to_owned(),
        actor_id: actor_id.to_owned(),
        resource_type: resource_type.to_owned(),
        resource_id,
        parent_event_id: None,
        payload_json,
        capability_id: None,
        delegated_by: None,
        expires_at: None,
        context_json: None,
    };
    SignedEventEnvelope::sign_at(spec, keypair, event_id, now)
}

/// The signed event recording that `monitor` was created, updated or deleted (`action`),
/// by `actor_id`, with id `event_id` at `now`.
pub fn monitor_event_at(keypair: &KeyPair, actor_id: &str, action: &str, monitor: &Monitor, event_id: u128, now: i64) -> (r:
    Result<SignedEventEnvelope, AuditError>)
    requires
        keypair.wf(),
    ensures
        actor_id@ != hex_lower(keypair.public_spec()) ==> r == Err::<SignedEventEnvelope, AuditError>(
            AuditError::ActorKeyMismatch,
        ),
        actor_id@ == hex_lower(keypair.public_spec()) ==> (r matches Ok(e) && plain_event(
            e,
            *keypair,
            actor_id@,
            monitor_event_type_text(action@),
            "monitor"@,
            uuid_text(monitor.uuid),
            monitor_payload_text(action@, *monitor),
            event_id,
            now,
        )),
{
    let mut resource_id = String::new();
    push_uuid(&mut resource_id, monitor.uuid);
    sign_plain_event(
        keypair,
        actor_id,
        monitor_event_type(action),
        "monitor",
        resource_id,
        monitor_payload(action, monitor),
        event_id,
        now,
    )
}

/// The signed event recording a result this node measured, recorded by `source`.
pub fn local_result_event_at(keypair: &KeyPair, actor_id: &str, source: &str, result: &CheckResult, event_id: u128, now: i64) -> (r:
    Result<SignedEventEnvelope, AuditError>)
    requires
        keypair.wf(),
    ensures
        actor_id@ != hex_lower(keypair.public_spec()) ==> r == Err::<SignedEventEnvelope, AuditError>(
            AuditError::ActorKeyMismatch,
        ),
        actor_id@ == hex_lower(keypair.public_spec()) ==> (r matches Ok(e) && plain_event(
            e,
            *keypair,
            actor_id@,
            "monitor.result_recorded"@,
            "monitor"@,
            uuid_text(result.monitor_id),
            result_payload_text(source@, *result),
            event_id,
            now,
        )),
{
    let mut resource_id = String::new();
    push_uuid(&mut resource_id, result.monitor_id);
    sign_plain_event(
        keypair,
        actor_id,
        "monitor.result_recorded",
        "monitor",
        resource_id,
        local_result_payload(source, result),
        event_id,
        now,
    )
}

/// The signed event recording an update of the admin trust chain (resource
/// "admin_trust_chain"/"global").
pub fn admin_trust_event_at(
    keypair: &KeyPair,
    actor_id: &str,
    action: &str,
    source: &str,
    version: u64,
    previous_version: Option<u64>,
    key_count: usize,
    rotation_count: usize,
    revoked_key_count: usize,
    event_id: u128,
    now: i64,
) -> (r: Result<SignedEventEnvelope, AuditError>)
    requires
        keypair.wf(),
    ensures
        actor_id@ != hex_lower(keypair.public_spec()) ==> r == Err::<SignedEventEnvelope, AuditError>(
            AuditError::ActorKeyMismatch,
        ),
        actor_id@ == hex_lower(keypair.public_spec()) ==> (r matches Ok(e) && plain_event(
            e,
            *keypair,
            actor_id@,
            "admin_trust.chain_updated"@,
            "admin_trust_chain"@,
            "global"@,
            admin_trust_payload_text(
                action@,
                source@,
                version,
                previous_version,
                key_count,
                rotation_count,
                revoked_key_count,
            ),
            event_id,
            now,
        )),
{
    sign_plain_event(
        keypair,
        actor_id,
        "admin_trust.chain_updated",
        "admin_trust_chain",
        "global".to_owned(),
        admin_trust_payload(action, source, version, previous_version, key_count, rotation_count, revoked_key_count),
        event_id,
        now,
    )
}

/// The current time for a new event, as `system_time_to_i64` reads the clock.
fn event_time() -> (r: i64) {
    crate::audit::system_time_to_i64(crate::clock::system_time_now())
}

/// Records a monitor change with a fresh random id at the current time.
pub fn monitor_event(keypair: &KeyPair, actor_id: &str, action: &str, monitor: &Monitor) -> (r: Result<
    SignedEventEnvelope,
    AuditError,
>)
    requires
        keypair.wf(),
    ensures
        actor_id@ != hex_lower(keypair.public_spec()) ==> r == Err::<SignedEventEnvelope, AuditError>(
            AuditError::ActorKeyMismatch,
        ),
        actor_id@ == hex_lower(keypair.public_spec()) ==> (r matches Ok(e) && plain_event(
            e,
            *keypair,
            actor_id@,
            monitor_event_type_text(action@),
            "monitor"@,
            uuid_text(monitor.uuid),
            monitor_payload_text(action@, *monitor),
            e.event_id,
            e.created_at,
        )),
{
    let id = crate::models::random_uuid();
    monitor_event_at(keypair, actor_id, action, monitor, id, event_time())
}

/// Records a result this node measured with a fresh random id at the current time.
pub fn local_result_event(keypair: &KeyPair, actor_id: &str, source: &str, result: &CheckResult) -> (r: Result<
    SignedEventEnvelope,
    AuditError,
>)
    requires
        keypair.wf(),
    ensures
        actor_id@ != hex_lower(keypair.public_spec()) ==> r == Err::<SignedEventEnvelope, AuditError>(
            AuditError::ActorKeyMismatch,
        ),
        actor_id@ == hex_lower(keypair.public_spec()) ==> (r matches Ok(e) && plain_event(
            e,
            *keypair,
            actor_id@,
            "monitor.result_recorded"@,
            "monitor"@,
            uuid_text(result.monitor_id),
            result_payload_text(source@, *result),
            e.event_id,
            e.created_at,
        )),
{
    let id = crate::models::random_uuid();
    local_result_event_at(keypair, actor_id, source, result, id, event_time())
}

/// An event these functions signed passes every check of `verify` but the last, which is
/// the strict Ed25519 check of the signing key's own signature over its bytes.
pub proof fn lemma_plain_event_verifies(
    e: SignedEventEnvelope,
    keypair: KeyPair,
    event_type: Seq<char>,
    resource_type: Seq<char>,
    resource_id: Seq<char>,
    payload: Seq<char>,
    event_id: u128,
    now: i64,
)
    requires
        keypair.wf(),
        plain_event(e, keypair, hex_lower(keypair.public_spec()), event_type, resource_type, resource_id, payload, event_id, now),
    ensures
        crate::audit::event_verdict(e) == Ok::<bool, AuditError>(crate::crypto::ed25519_strict_verifies(
            keypair.public_spec(),
            crate::audit::event_signing_bytes(e),
            crate::signing::ed25519_signature_of(keypair.secret_spec(), crate::audit::event_signing_bytes(e)),
        )),
{
    keypair.lemma_wf_facts();
}

} // verus!
