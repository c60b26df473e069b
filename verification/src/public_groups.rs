//! Public monitors are coordinated per domain: each domain has a group of peers, a topic
//! on which the group talks, and signed schedule votes. This module holds what decides
//! whether a monitor may join a group, the names and topics derived from a domain, and the
//! bytes a schedule vote is signed over.
use vstd::prelude::*;
use crate::json::{json_int, push_i64};
use crate::models::{copy_opt_string, Monitor, MonitorVisibility};
use crate::text::{concat_str, list_contains, string_push, to_owned_string, views};
use crate::validation::{
    monitor_target_result, validate_check_interval, validate_monitor_target, ValidationError, MAX_INTERVAL,
    MIN_INTERVAL,
};

verus! {

/// Why a public monitor cannot join its domain's group.
#[derive(Debug, Clone, PartialEq, Eq, Structural)]
pub enum PublicGroupError {
    /// The monitor is public but names no domain.
    MissingDomain,
    /// The target does not pass validation.
    InvalidTarget(ValidationError),
    /// The check interval does not pass validation.
    InvalidInterval(ValidationError),
}

/// What validating a check interval gives.
pub open spec fn interval_result(interval_seconds: u64) -> Result<(), ValidationError> {
    if interval_seconds < MIN_INTERVAL {
        Err(ValidationError::IntervalTooShort(interval_seconds))
    } else if interval_seconds > MAX_INTERVAL {
        Err(ValidationError::IntervalTooLong(interval_seconds))
    } else {
        Ok(())
    }
}

/// The outcome of vetting a monitor for its public group: a monitor that is not public
/// has no group (`None`); a public one needs a domain, a valid target and a valid interval,
/// checked in that order, and then joins the group of its domain.
pub open spec fn public_vetting(m: Monitor) -> Result<Option<Seq<char>>, PublicGroupError> {
    if m.visibility != MonitorVisibility::Public {
        Ok(None)
    } else {
        match m.public_domain {
            None => Err(PublicGroupError::MissingDomain),
            Some(d) => match monitor_target_result(m.target@, m.check_type@) {
                Err(e) => Err(PublicGroupError::InvalidTarget(e)),
                Ok(_) => match interval_result(m.interval_seconds) {
                    Err(e) => Err(PublicGroupError::InvalidInterval(e)),
                    Ok(_) => Ok(Some(d@)),
                },
            },
        }
    }
}

/// Vets a new monitor for public orchestration; returns the domain whose group it joins,
/// or `None` for a monitor that is not public.
pub fn vet_public_monitor(monitor: &Monitor) -> (r: Result<Option<String>, PublicGroupError>)
    ensures
        match r {
            Ok(Some(d)) => public_vetting(*monitor) == Ok::<Option<Seq<char>>, PublicGroupError>(Some(d@)),
            Ok(None) => public_vetting(*monitor) == Ok::<Option<Seq<char>>, PublicGroupError>(None),
            Err(e) => public_vetting(*monitor) == Err::<Option<Seq<char>>, PublicGroupError>(e),
        },
{
    if monitor.visibility != MonitorVisibility::Public {
        return Ok(None);
    }
    let domain = match &monitor.public_domain {
        Some(d) => d,
        None => return Err(PublicGroupError::MissingDomain),
    };
    match validate_monitor_target(monitor.target.as_str(), monitor.check_type.as_str()) {
        Err(e) => return Err(PublicGroupError::InvalidTarget(e)),
        Ok(()) => {},
    }
    match validate_check_interval(monitor.interval_seconds) {
        Err(e) => return Err(PublicGroupError::InvalidInterval(e)),
        Ok(()) => {},
    }
    Ok(Some(domain.clone()))
}

/// Whether a scheduled check runs, as decided before the group's consensus is consulted.
#[derive(Debug)]
pub enum CheckGate {
    /// Not a public monitor: it checks on its own schedule.
    Always,
    /// A public monitor without a domain never checks.
    Never,
    /// The consensus for this domain decides.
    Consensus(String),
}

/// Decides how a monitor's check is gated: monitors that are not public always check, a
/// public one without a domain never does, and otherwise its domain's consensus decides.
pub fn check_gate(monitor: &Monitor) -> (r: CheckGate)
    ensures
        monitor.visibility != MonitorVisibility::Public ==> r is Always,
        monitor.visibility == MonitorVisibility::Public && monitor.public_domain is None ==> r is Never,
        monitor.visibility == MonitorVisibility::Public ==> (monitor.public_domain matches Some(d) ==> (
        r matches CheckGate::Consensus(x) && x@ == d@)),
{
    if monitor.visibility != MonitorVisibility::Public {
        return CheckGate::Always;
    }
    match &monitor.public_domain {
        Some(d) => CheckGate::Consensus(d.clone()),
        None => CheckGate::Never,
    }
}

/// The domain whose group records a completed check: only public monitors with a domain.
pub fn completion_domain(monitor: &Monitor) -> (r: Option<String>)
    ensures
        monitor.visibility != MonitorVisibility::Public ==> r is None,
        monitor.visibility == MonitorVisibility::Public ==> r == monitor.public_domain,
{
    if monitor.visibility != MonitorVisibility::Public {
        return None;
    }
    copy_opt_string(&monitor.public_domain)
}

/// The topic a domain's group publishes on.
pub fn group_topic(domain: &str) -> (r: String)
    ensures
        r@ == "/uppe/public-monitors/"@ + domain@,
{
    concat_str("/uppe/public-monitors/", domain)
}

/// The display name of a group rebuilt at start-up for a domain.
pub fn initial_group_name(domain: &str) -> (r: String)
    ensures
        r@ == "Public Monitors - "@ + domain@,
{
    concat_str("Public Monitors - ", domain)
}

/// The display name of a group a new monitor announces: the monitor's own public display
/// name, or else its domain.
pub fn announced_group_name(monitor: &Monitor, domain: &str) -> (r: String)
    ensures
        monitor.public_display_name matches Some(n) ==> r@ == n@,
        monitor.public_display_name is None ==> r@ == domain@,
{
    match &monitor.public_display_name {
        Some(n) => n.clone(),
        None => to_owned_string(domain),
    }
}

/// The text a schedule vote is signed over: the domain, the schedule's JSON and the
/// timestamp, separated by colons.
pub open spec fn vote_text(domain: Seq<char>, schedule_json: Seq<char>, timestamp: i64) -> Seq<char> {
    domain + seq![':'] + schedule_json + seq![':'] + json_int(timestamp as int)
}

/// Builds the text a schedule vote is signed over.
pub fn vote_payload(domain: &str, schedule_json: &str, timestamp: i64) -> (r: String)
    ensures
        r@ == vote_text(domain@, schedule_json@, timestamp),
{
    proof {
        reveal_strlit(":");
    }
    let mut s = concat_str(domain, ":");
    let t = concat_str(s.as_str(), schedule_json);
    s = t;
    string_push(&mut s, ':');
    push_i64(&mut s, timestamp);
    assert(s@ =~= vote_text(domain@, schedule_json@, timestamp));
    s
}

/// The domain of a monitor when it is public and names one.
pub open spec fn public_domain_of(m: Monitor) -> Option<Seq<char>> {
    if m.visibility == MonitorVisibility::Public {
        match m.public_domain {
            Some(d) => Some(d@),
            None => None,
        }
    } else {
        None
    }
}

/// The domains that have groups: those of the public monitors that name one, each once, in
/// the order they first occur.
pub fn public_domains(monitors: &Vec<Monitor>) -> (r: Vec<String>)
    ensures
        forall|i: int, j: int| 0 <= i < j < r@.len() ==> views(r@)[i] != views(r@)[j],
        forall|d: Seq<char>| views(r@).contains(d) <==> exists|k: int| 0 <= k < monitors@.len()
            && #[trigger] public_domain_of(monitors@[k]) == Some(d),
{
    let mut out: Vec<String> = Vec::new();
    let mut i: usize = 0;
    while i < monitors.len()
        invariant
            i <= monitors@.len(),
            forall|a: int, b: int| 0 <= a < b < out@.len() ==> views(out@)[a] != views(out@)[b],
            forall|d: Seq<char>| views(out@).contains(d) <==> exists|k: int| 0 <= k < i
                && #[trigger] public_domain_of(monitors@[k]) == Some(d),
        decreases monitors@.len() - i,
    {
        let m = &monitors[i];
        let ghost before = out@;
        if m.visibility == MonitorVisibility::Public {
            if let Some(d) = &m.public_domain {
                if !list_contains(&out, d.as_str()) {
                    out.push(d.clone());
                    assert(views(out@) =~= views(before).push(d@));
                    assert(views(out@)[before.len() as int] == d@);
                } else {
                    proof {
                        let p = choose|p: int| 0 <= p < views(before).len() && views(before)[p] == d@;
                        assert(views(out@)[p] == d@);
                    }
                }
                assert(views(out@).contains(d@));
                assert(public_domain_of(monitors@[i as int]) == Some(d@));
            }
        }
        assert forall|x: Seq<char>| views(before).contains(x) implies views(out@).contains(x) by {
            let p = choose|p: int| 0 <= p < views(before).len() && views(before)[p] == x;
            assert(views(out@)[p] == x);
        }
        assert(forall|x: Seq<char>| views(out@).contains(x) && !views(before).contains(x)
            ==> public_domain_of(monitors@[i as int]) == Some(x));
        assert forall|d: Seq<char>| views(out@).contains(d) <==> exists|k: int| 0 <= k < i + 1
            && #[trigger] public_domain_of(monitors@[k]) == Some(d) by {
            if views(out@).contains(d) {
                if views(before).contains(d) {
                    let k = choose|k: int| 0 <= k < i && #[trigger] public_domain_of(monitors@[k]) == Some(d);
                    assert(0 <= k < i + 1 && public_domain_of(monitors@[k]) == Some(d));
                } else {
                    assert(public_domain_of(monitors@[i as int]) == Some(d));
                }
            }
            if exists|k: int| 0 <= k < i + 1 && #[trigger] public_domain_of(monitors@[k]) == Some(d) {
                let k = choose|k: int| 0 <= k < i + 1 && #[trigger] public_domain_of(monitors@[k]) == Some(d);
                if k < i {
                    assert(views(before).contains(d));
                } else {
                    assert(k == i);
                }
            }
        }
        i = i + 1;
    }
    out
}

/// Whether an announcement of a public monitor is acted on: remote checks must be
/// accepted here, and the announcement must come from another node than this one.
pub fn announcement_acted_on(accept_remote_checks: bool, creator_peer_id: &str, our_peer_id: &str) -> (r: bool)
    ensures
        r == (accept_remote_checks && creator_peer_id@ != our_peer_id@),
{
    accept_remote_checks && !crate::text::str_equal(creator_peer_id, our_peer_id)
}

/// The monitor this node keeps for a public monitor another node announced: named after
/// the display name with " (community)" appended, public in the domain's group, checking
/// at the announced interval, created at `now`.
pub fn community_monitor_at(
    display_name: &str,
    target: String,
    check_type: String,
    domain: String,
    interval_seconds: u64,
    now: u64,
) -> (r: Monitor)
    ensures
        r.id is None,
        r.uuid == crate::models::public_domain_uuid(domain@),
        r.name@ == display_name@ + " (community)"@,
        r.target == target,
        r.check_type == check_type,
        r.interval_seconds == interval_seconds,
        r.timeout_seconds == 10,
        r.enabled,
        r.created_at == now,
        r.updated_at == now,
        r.visibility == MonitorVisibility::Public,
        r.public_domain == Some(domain),
        r.public_display_name matches Some(n) && n@ == display_name@,
        r.owner_peer_id is None,
{
    let name = concat_str(display_name, " (community)");
    let mut monitor = Monitor::new_public_at(name, target, check_type, domain, to_owned_string(display_name), now);
    monitor.interval_seconds = interval_seconds;
    monitor
}

} // verus!
