//! Private monitor orchestration state: which connected peers help check which private
//! monitor, assignments awaiting a helper's confirmation, helper health, and owner sync.
//!
//! Peers are ranked for selection by trust scores elsewhere; this state decides how many
//! helpers a monitor gets, what an acceptance, rejection, disconnection or timeout changes,
//! and which monitors must be reassigned. Times are whole seconds.
use vstd::prelude::*;
use crate::json::{push_uuid, uuid_text};
use crate::models::{Monitor, MonitorVisibility};
use crate::text::{str_equal, to_owned_string};

verus! {

/// Most helpers a private monitor gets.
pub const MAX_HELPERS: usize = 5;

/// Fewest helpers a monitor keeps before it is rebalanced.
pub const MIN_HELPERS: usize = 3;

/// Seconds an assignment may wait for confirmation.
pub const ASSIGNMENT_TIMEOUT_SECS: u64 = 30;

/// Seconds between owner syncs: 12 hours.
pub const OWNER_SYNC_INTERVAL_SECS: i64 = 43200;

/// Most result batches looked up per monitor in one owner sync.
pub const SYNC_BATCH_LIMIT: u32 = 100;

/// Why a private monitor could not be handled.
#[derive(Debug, Clone, Copy, PartialEq, Eq, Structural)]
pub enum PrivateError {
    /// Private monitor missing owner_peer_id.
    MissingOwner,
}

/// Whether some entry of `s` has key `k`.
pub open spec fn has_k<V>(s: Seq<(Seq<char>, V)>, k: Seq<char>) -> bool {
    exists|i: int| 0 <= i < s.len() && #[trigger] s[i].0 == k
}

/// The position of key `k` (meaningful when `has_k`).
pub open spec fn idx_k<V>(s: Seq<(Seq<char>, V)>, k: Seq<char>) -> int {
    choose|i: int| 0 <= i < s.len() && #[trigger] s[i].0 == k
}

/// The value under `k`, if any.
pub open spec fn get_k<V>(s: Seq<(Seq<char>, V)>, k: Seq<char>) -> Option<V> {
    if has_k(s, k) {
        Some(s[idx_k(s, k)].1)
    } else {
        None
    }
}

/// `s` with `k` mapped to `v` (in place, or appended).
pub open spec fn set_k<V>(s: Seq<(Seq<char>, V)>, k: Seq<char>, v: V) -> Seq<(Seq<char>, V)> {
    if has_k(s, k) {
        s.update(idx_k(s, k), (k, v))
    } else {
        s.push((k, v))
    }
}

/// `s` without key `k`.
pub open spec fn del_k<V>(s: Seq<(Seq<char>, V)>, k: Seq<char>) -> Seq<(Seq<char>, V)> {
    if has_k(s, k) {
        s.remove(idx_k(s, k))
    } else {
        s
    }
}

/// No key occurs twice.
pub open spec fn distinct_k<V>(s: Seq<(Seq<char>, V)>) -> bool {
    forall|i: int, j: int| 0 <= i < j < s.len() ==> s[i].0 != s[j].0
}

/// `hs` without any occurrence of `p`.
pub open spec fn without(hs: Seq<Seq<char>>, p: Seq<char>) -> Seq<Seq<char>>
    decreases hs.len(),
{
    if hs.len() == 0 {
        hs
    } else if hs.last() == p {
        without(hs.drop_last(), p)
    } else {
        without(hs.drop_last(), p).push(hs.last())
    }
}

/// The assignments after peer `p` goes offline: it is dropped from every helper list.
pub open spec fn drop_helper(s: Seq<(Seq<char>, Seq<Seq<char>>)>, p: Seq<char>) -> Seq<(Seq<char>, Seq<Seq<char>>)> {
    s.map_values(|e: (Seq<char>, Seq<Seq<char>>)| (e.0, without(e.1, p)))
}

/// The monitors, in order, that had `p` as a helper and keep fewer than 3 helpers without it.
pub open spec fn needing_rebalance(s: Seq<(Seq<char>, Seq<Seq<char>>)>, p: Seq<char>) -> Seq<Seq<char>>
    decreases s.len(),
{
    if s.len() == 0 {
        seq![]
    } else {
        let rest = needing_rebalance(s.drop_last(), p);
        let e = s.last();
        if e.1.contains(p) && without(e.1, p).len() < 3 {
            rest.push(e.0)
        } else {
            rest
        }
    }
}

/// Whether a helper last seen at `last_seen` is stale at `now` (a clock behind `last_seen`
/// never makes it stale).
pub open spec fn is_stale(last_seen: u64, now: u64, threshold: u64) -> bool {
    now >= last_seen && now - last_seen > threshold
}

/// The helpers, in order, that are stale at `now`.
pub open spec fn stale_of(s: Seq<(Seq<char>, (u64, usize, bool))>, now: u64, threshold: u64) -> Seq<Seq<char>>
    decreases s.len(),
{
    if s.len() == 0 {
        seq![]
    } else {
        let rest = stale_of(s.drop_last(), now, threshold);
        if is_stale(s.last().1.0, now, threshold) {
            rest.push(s.last().0)
        } else {
            rest
        }
    }
}

/// The helper statuses that are not stale at `now`, in order.
pub open spec fn fresh_of(s: Seq<(Seq<char>, (u64, usize, bool))>, now: u64, threshold: u64) -> Seq<
    (Seq<char>, (u64, usize, bool)),
>
    decreases s.len(),
{
    if s.len() == 0 {
        seq![]
    } else {
        let rest = fresh_of(s.drop_last(), now, threshold);
        if is_stale(s.last().1.0, now, threshold) {
            rest
        } else {
            rest.push(s.last())
        }
    }
}

/// Whether some helper of the list is in `stale`.
pub open spec fn any_in(hs: Seq<Seq<char>>, stale: Seq<Seq<char>>) -> bool {
    exists|i: int| 0 <= i < hs.len() && stale.contains(#[trigger] hs[i])
}

/// The monitors, in order, with a helper in `stale`.
pub open spec fn with_stale_helper(s: Seq<(Seq<char>, Seq<Seq<char>>)>, stale: Seq<Seq<char>>) -> Seq<Seq<char>>
    decreases s.len(),
{
    if s.len() == 0 {
        seq![]
    } else {
        let rest = with_stale_helper(s.drop_last(), stale);
        if any_in(s.last().1, stale) {
            rest.push(s.last().0)
        } else {
            rest
        }
    }
}

/// Whether an assignment made at `assigned_at` has waited more than 30 seconds at `now`.
pub open spec fn timed_out(assigned_at: u64, now: u64) -> bool {
    now >= assigned_at && now - assigned_at > 30
}

/// The pending monitors, in order, that timed out at `now`.
pub open spec fn timed_out_of(s: Seq<(Seq<char>, (Seq<Seq<char>>, u64))>, now: u64) -> Seq<Seq<char>>
    decreases s.len(),
{
    if s.len() == 0 {
        seq![]
    } else {
        let rest = timed_out_of(s.drop_last(), now);
        if timed_out(s.last().1.1, now) {
            rest.push(s.last().0)
        } else {
            rest
        }
    }
}

/// The pending assignments still waiting at `now`, in order.
pub open spec fn waiting_of(s: Seq<(Seq<char>, (Seq<Seq<char>>, u64))>, now: u64) -> Seq<(Seq<char>, (Seq<Seq<char>>, u64))>
    decreases s.len(),
{
    if s.len() == 0 {
        seq![]
    } else {
        let rest = waiting_of(s.drop_last(), now);
        if timed_out(s.last().1.1, now) {
            rest
        } else {
            rest.push(s.last())
        }
    }
}

/// How many helpers to take from `n` candidates: up to 5.
pub open spec fn helper_count_of(n: nat) -> nat {
    if n < 5 { n } else { 5 }
}

/// The characters of each string.
pub open spec fn strs(v: Seq<String>) -> Seq<Seq<char>> {
    v.map_values(|s: String| s@)
}

/// The helpers of one private monitor.
#[derive(Debug)]
pub struct MonitorHelpers {
    pub monitor_uuid: String,
    pub helpers: Vec<String>,
}

/// Helper health status.
#[derive(Debug)]
pub struct HelperStatus {
    pub peer_id: String,
    /// Last result received from this helper (seconds)
    pub last_seen: u64,
    /// Number of assignments
    pub assignment_count: usize,
    /// Whether the helper confirmed an assignment
    pub confirmed: bool,
}

/// Helpers asked to check a monitor, not yet confirmed.
#[derive(Debug)]
pub struct PendingAssignment {
    pub monitor_uuid: String,
    pub helpers: Vec<String>,
    pub assigned_at: u64,
}

/// A result batch already decrypted, and when.
#[derive(Debug)]
pub struct SyncedBatch {
    pub batch_key: String,
    pub synced_at: i64,
}

/// The assignments view.
pub open spec fn assignments_view(v: Seq<MonitorHelpers>) -> Seq<(Seq<char>, Seq<Seq<char>>)> {
    v.map_values(|e: MonitorHelpers| (e.monitor_uuid@, strs(e.helpers@)))
}

/// The helper status view: peer, then last seen, assignment count and confirmation.
pub open spec fn status_view(v: Seq<HelperStatus>) -> Seq<(Seq<char>, (u64, usize, bool))> {
    v.map_values(|e: HelperStatus| (e.peer_id@, (e.last_seen, e.assignment_count, e.confirmed)))
}

/// The pending assignments view: monitor, then helpers and assignment time.
pub open spec fn pending_view(v: Seq<PendingAssignment>) -> Seq<(Seq<char>, (Seq<Seq<char>>, u64))> {
    v.map_values(|e: PendingAssignment| (e.monitor_uuid@, (strs(e.helpers@), e.assigned_at)))
}

/// The synced batches view.
pub open spec fn synced_view(v: Seq<SyncedBatch>) -> Seq<(Seq<char>, i64)> {
    v.map_values(|e: SyncedBatch| (e.batch_key@, e.synced_at))
}

/// Private monitor orchestration state.
#[derive(Debug)]
pub struct PrivateMonitorOrchestrator {
    peer_id: String,
    owner_pubkey: [u8; 32],
    assignments: Vec<MonitorHelpers>,
    helper_status: Vec<HelperStatus>,
    pending_assignments: Vec<PendingAssignment>,
    connected_peers: Vec<String>,
    synced_keys: Vec<SyncedBatch>,
    last_sync_time: Option<i64>,
}

/// The text of a monitor's identifier.
fn uuid_string(u: u128) -> (r: String)
    ensures
        r@ == uuid_text(u),
{
    let mut s = String::new();
    push_uuid(&mut s, u);
    assert(s@ =~= uuid_text(u));
    s
}

/// A copy of a list of strings.
fn copy_strs(v: &Vec<String>) -> (r: Vec<String>)
    ensures
        strs(r@) == strs(v@),
{
    let mut r: Vec<String> = Vec::new();
    let mut i: usize = 0;
    while i < v.len()
        invariant
            i <= v@.len(),
            strs(r@) == strs(v@).take(i as int),
        decreases v@.len() - i,
    {
        let ghost before = r@;
        r.push(v[i].clone());
        proof {
            assert(strs(r@) =~= strs(before).push(v@[i as int]@));
            assert(strs(v@).take(i + 1) =~= strs(v@).take(i as int).push(strs(v@)[i as int]));
        }
        i = i + 1;
    }
    assert(strs(v@).take(v@.len() as int) =~= strs(v@));
    r
}

/// Whether `p` is in the list.
fn contains_str(v: &Vec<String>, p: &str) -> (r: bool)
    ensures
        r == strs(v@).contains(p@),
{
    let mut i: usize = 0;
    while i < v.len()
        invariant
            i <= v@.len(),
            forall|j: int| 0 <= j < i ==> strs(v@)[j] != p@,
        decreases v@.len() - i,
    {
        if str_equal(v[i].as_str(), p) {
            assert(strs(v@)[i as int] == p@);
            return true;
        }
        i = i + 1;
    }
    false
}

/// The list without any occurrence of `p`.
fn without_exec(v: &Vec<String>, p: &str) -> (r: Vec<String>)
    ensures
        strs(r@) == without(strs(v@), p@),
{
    let mut r: Vec<String> = Vec::new();
    let mut i: usize = 0;
    while i < v.len()
        invariant
            i <= v@.len(),
            strs(r@) == without(strs(v@).take(i as int), p@),
        decreases v@.len() - i,
    {
        let ghost before = r@;
        proof {
            assert(strs(v@).take(i + 1).drop_last() =~= strs(v@).take(i as int));
            assert(strs(v@).take(i + 1).last() == v@[i as int]@);
        }
        if !str_equal(v[i].as_str(), p) {
            r.push(v[i].clone());
            assert(strs(r@) =~= strs(before).push(v@[i as int]@));
        }
        i = i + 1;
    }
    assert(strs(v@).take(v@.len() as int) =~= strs(v@));
    r
}

proof fn lemma_without_absent(hs: Seq<Seq<char>>, p: Seq<char>)
    ensures
        !without(hs, p).contains(p),
        without(hs, p).len() <= hs.len(),
    decreases hs.len(),
{
    if hs.len() > 0 {
        lemma_without_absent(hs.drop_last(), p);
        if hs.last() != p {
            let w = without(hs.drop_last(), p);
            if w.push(hs.last()).contains(p) {
                let i = choose|i: int| 0 <= i < w.push(hs.last()).len() && w.push(hs.last())[i] == p;
                if i < w.len() {
                    assert(w[i] == p);
                }
            }
        }
    }
}

impl PrivateMonitorOrchestrator {
    /// This node's X25519 public key, sent to helpers.
    pub closed spec fn owner_key_spec(&self) -> Seq<u8> {
        self.owner_pubkey@
    }

    /// This node's peer id.
    pub closed spec fn peer_id_spec(&self) -> Seq<char> {
        self.peer_id@
    }

    /// Confirmed helpers per monitor.
    pub closed spec fn assignments_spec(&self) -> Seq<(Seq<char>, Seq<Seq<char>>)> {
        assignments_view(self.assignments@)
    }

    /// Helper health per peer.
    pub closed spec fn status_spec(&self) -> Seq<(Seq<char>, (u64, usize, bool))> {
        status_view(self.helper_status@)
    }

    /// Assignments awaiting confirmation per monitor.
    pub closed spec fn pending_spec(&self) -> Seq<(Seq<char>, (Seq<Seq<char>>, u64))> {
        pending_view(self.pending_assignments@)
    }

    /// Connected peers.
    pub closed spec fn connected_spec(&self) -> Seq<Seq<char>> {
        strs(self.connected_peers@)
    }

    /// Decrypted result batches.
    pub closed spec fn synced_spec(&self) -> Seq<(Seq<char>, i64)> {
        synced_view(self.synced_keys@)
    }

    /// When the owner last synced.
    pub closed spec fn last_sync_spec(&self) -> Option<i64> {
        self.last_sync_time
    }

    /// The state invariant: one entry per monitor, per helper, per batch; connected peers
    /// listed once.
    pub open spec fn wf(&self) -> bool {
        &&& distinct_k(self.assignments_spec())
        &&& distinct_k(self.status_spec())
        &&& distinct_k(self.pending_spec())
        &&& distinct_k(self.synced_spec())
        &&& self.connected_spec().no_duplicates()
    }

    /// Fresh state for the node `peer_id` with X25519 key `owner_pubkey`.
    pub fn new(peer_id: String, owner_pubkey: [u8; 32]) -> (r: PrivateMonitorOrchestrator)
        ensures
            r.wf(),
            r.peer_id_spec() == peer_id@,
            r.owner_key_spec() == owner_pubkey@,
            r.assignments_spec().len() == 0,
            r.status_spec().len() == 0,
            r.pending_spec().len() == 0,
            r.connected_spec().len() == 0,
            r.synced_spec().len() == 0,
            r.last_sync_spec() is None,
    {
        let r = PrivateMonitorOrchestrator {
            peer_id,
            owner_pubkey,
            assignments: Vec::new(),
            helper_status: Vec::new(),
            pending_assignments: Vec::new(),
            connected_peers: Vec::new(),
            synced_keys: Vec::new(),
            last_sync_time: None,
        };
        assert(r.assignments_spec() =~= seq![]);
        assert(r.status_spec() =~= seq![]);
        assert(r.pending_spec() =~= seq![]);
        assert(r.connected_spec() =~= seq![]);
        assert(r.synced_spec() =~= seq![]);
        r
    }

    /// The owner's X25519 public key, sent to helpers to encrypt results.
    pub fn owner_pubkey(&self) -> (r: [u8; 32])
        ensures
            r@ == self.owner_key_spec(),
    {
        self.owner_pubkey
    }

    /// The request asking `helper_id` to check `monitor` for this node, made at `now`: the
    /// monitor's id, target, check type, interval and timeout, this node as owner with its
    /// X25519 key.
    pub fn helper_request(&self, helper_id: &str, monitor: &Monitor, now: i64) -> (r:
        crate::messages::HelperAssignmentRequest)
        ensures
            r.monitor_uuid@ == uuid_text(monitor.uuid),
            r.target@ == monitor.target@,
            r.check_type@ == monitor.check_type@,
            r.interval_seconds == monitor.interval_seconds,
            r.timeout_seconds == monitor.timeout_seconds,
            r.owner_peer_id@ == self.peer_id_spec(),
            r.owner_public_key@ == self.owner_key_spec(),
            r.helper_peer_id@ == helper_id@,
            r.assigned_at == now,
    {
        crate::messages::HelperAssignmentRequest {
            monitor_uuid: uuid_string(monitor.uuid),
            target: monitor.target.clone(),
            check_type: monitor.check_type.clone(),
            interval_seconds: monitor.interval_seconds,
            timeout_seconds: monitor.timeout_seconds,
            owner_peer_id: self.peer_id.clone(),
            owner_public_key: self.owner_pubkey,
            helper_peer_id: to_owned_string(helper_id),
            assigned_at: now,
        }
    }

    /// A private monitor that names no owner is taken to belong to this node. Returns
    /// whether the monitor changed (and is to be saved).
    pub fn claim_ownership(&self, monitor: &mut Monitor) -> (r: bool)
        ensures
            r == (old(monitor).visibility == MonitorVisibility::Private && old(monitor).owner_peer_id is None),
            r ==> (final(monitor).owner_peer_id matches Some(o) && o@ == self.peer_id_spec()),
            !r ==> *final(monitor) == *old(monitor),
            final(monitor).uuid == old(monitor).uuid && final(monitor).visibility == old(monitor).visibility,
    {
        if monitor.visibility == MonitorVisibility::Private && monitor.owner_peer_id.is_none() {
            monitor.owner_peer_id = Some(self.peer_id.clone());
            true
        } else {
            false
        }
    }

    /// Check if owner sync should run at `now`: never synced, or more than 12 hours ago.
    pub fn should_sync_owner_results_at(&self, now: i64) -> (r: bool)
        ensures
            r == match self.last_sync_spec() {
                None => true,
                Some(t) => now - t > 43200,
            },
    {
        match self.last_sync_time {
            Some(t) => (now as i128) - (t as i128) > OWNER_SYNC_INTERVAL_SECS as i128,
            None => true,
        }
    }

    /// Mark that owner sync was just performed at `now`.
    pub fn mark_sync_completed_at(&mut self, now: i64)
        requires
            old(self).wf(),
        ensures
            final(self).wf(),
            final(self).last_sync_spec() == Some(now),
            final(self).assignments_spec() == old(self).assignments_spec(),
            final(self).pending_spec() == old(self).pending_spec(),
            final(self).status_spec() == old(self).status_spec(),
            final(self).connected_spec() == old(self).connected_spec(),
            final(self).synced_spec() == old(self).synced_spec(),
    {
        self.last_sync_time = Some(now);
    }

    /// The key under which batch `index` of a monitor's encrypted results is stored.
    pub fn batch_key(monitor_uuid: &str, index: u32) -> (r: String)
        ensures
            r@ == monitor_uuid@ + "-"@ + crate::json::decimal(index as nat),
    {
        let mut s = to_owned_string(monitor_uuid);
        crate::json::push_str(&mut s, "-");
        crate::json::push_decimal(&mut s, index as u64);
        s
    }

    /// The DHT key of a batch key.
    pub fn dht_batch_key(batch_key: &str) -> (r: String)
        ensures
            r@ == "uppe-private-results-"@ + batch_key@,
    {
        crate::text::concat_str("uppe-private-results-", batch_key)
    }

    /// Whether a batch was already decrypted.
    pub fn is_batch_synced(&self, batch_key: &str) -> (r: bool)
        ensures
            r == has_k(self.synced_spec(), batch_key@),
    {
        let mut i: usize = 0;
        while i < self.synced_keys.len()
            invariant
                i <= self.synced_keys@.len(),
                forall|j: int| 0 <= j < i ==> self.synced_spec()[j].0 != batch_key@,
            decreases self.synced_keys@.len() - i,
        {
            if str_equal(self.synced_keys[i].batch_key.as_str(), batch_key) {
                assert(self.synced_spec()[i as int].0 == batch_key@);
                return true;
            }
            i = i + 1;
        }
        false
    }

    fn synced_index(&self, key: &str) -> (r: Option<usize>)
        requires
            self.wf(),
        ensures
            r matches Some(i) ==> i < self.synced_spec().len() && self.synced_spec()[i as int].0 == key@
                && has_k(self.synced_spec(), key@) && idx_k(self.synced_spec(), key@) == i,
            r is None ==> !has_k(self.synced_spec(), key@),
    {
        let ghost v = self.synced_spec();
        let mut i: usize = 0;
        while i < self.synced_keys.len()
            invariant
                i <= self.synced_keys@.len(),
                self.synced_spec() == v,
                distinct_k(v),
                forall|j: int| 0 <= j < i ==> v[j].0 != key@,
            decreases self.synced_keys@.len() - i,
        {
            if str_equal(self.synced_keys[i].batch_key.as_str(), key) {
                proof {
                    assert(v[i as int].0 == key@);
                    assert(has_k(v, key@));
                    let c = idx_k(v, key@);
                    if c != i {
                        assert(v[c].0 == v[i as int].0);
                    }
                }
                return Some(i);
            }
            i = i + 1;
        }
        None
    }

    fn pending_index(&self, key: &str) -> (r: Option<usize>)
        requires
            self.wf(),
        ensures
            r matches Some(i) ==> i < self.pending_spec().len() && self.pending_spec()[i as int].0 == key@
                && has_k(self.pending_spec(), key@) && idx_k(self.pending_spec(), key@) == i,
            r is None ==> !has_k(self.pending_spec(), key@),
    {
        let ghost v = self.pending_spec();
        let mut i: usize = 0;
        while i < self.pending_assignments.len()
            invariant
                i <= self.pending_assignments@.len(),
                self.pending_spec() == v,
                distinct_k(v),
                forall|j: int| 0 <= j < i ==> v[j].0 != key@,
            decreases self.pending_assignments@.len() - i,
        {
            if str_equal(self.pending_assignments[i].monitor_uuid.as_str(), key) {
                proof {
                    assert(v[i as int].0 == key@);
                    assert(has_k(v, key@));
                    let c = idx_k(v, key@);
                    if c != i {
                        assert(v[c].0 == v[i as int].0);
                    }
                }
                return Some(i);
            }
            i = i + 1;
        }
        None
    }

    fn assignment_index(&self, key: &str) -> (r: Option<usize>)
        requires
            self.wf(),
        ensures
            r matches Some(i) ==> i < self.assignments_spec().len() && self.assignments_spec()[i as int].0 == key@
                && has_k(self.assignments_spec(), key@) && idx_k(self.assignments_spec(), key@) == i,
            r is None ==> !has_k(self.assignments_spec(), key@),
    {
        let ghost v = self.assignments_spec();
        let mut i: usize = 0;
        while i < self.assignments.len()
            invariant
                i <= self.assignments@.len(),
                self.assignments_spec() == v,
                distinct_k(v),
                forall|j: int| 0 <= j < i ==> v[j].0 != key@,
            decreases self.assignments@.len() - i,
        {
            if str_equal(self.assignments[i].monitor_uuid.as_str(), key) {
                proof {
                    assert(v[i as int].0 == key@);
                    assert(has_k(v, key@));
                    let c = idx_k(v, key@);
                    if c != i {
                        assert(v[c].0 == v[i as int].0);
                    }
                }
                return Some(i);
            }
            i = i + 1;
        }
        None
    }

    /// Records that a batch was decrypted at `now`.
    pub fn mark_batch_synced(&mut self, batch_key: &str, now: i64)
        requires
            old(self).wf(),
        ensures
            final(self).wf(),
            final(self).synced_spec() == set_k(old(self).synced_spec(), batch_key@, now),
            final(self).assignments_spec() == old(self).assignments_spec(),
            final(self).pending_spec() == old(self).pending_spec(),
            final(self).status_spec() == old(self).status_spec(),
            final(self).connected_spec() == old(self).connected_spec(),
            final(self).last_sync_spec() == old(self).last_sync_spec(),
    {
        let ghost v = self.synced_spec();
        match self.synced_index(batch_key) {
            Some(i) => {
                self.synced_keys.set(i, SyncedBatch { batch_key: batch_key.to_owned(), synced_at: now });
                assert(self.synced_spec() =~= v.update(i as int, (batch_key@, now)));
                proof {
                    let u = self.synced_spec();
                    assert forall|a: int, b: int| 0 <= a < b < u.len() implies u[a].0 != u[b].0 by {
                        assert(u[a].0 == v[a].0 && u[b].0 == v[b].0);
                    }
                }
            },
            None => {
                self.synced_keys.push(SyncedBatch { batch_key: batch_key.to_owned(), synced_at: now });
                assert(self.synced_spec() =~= v.push((batch_key@, now)));
                proof {
                    let u = self.synced_spec();
                    assert forall|a: int, b: int| 0 <= a < b < u.len() implies u[a].0 != u[b].0 by {
                        if b == v.len() && u[a].0 == batch_key@ {
                            assert(v[a].0 == batch_key@);
                        }
                    }
                }
            },
        }
    }

    /// The connected peers other than the owner: the candidates for helping it.
    pub fn helper_candidates(&self, owner_peer_id: &str) -> (r: Vec<String>)
        ensures
            strs(r@) == without(self.connected_spec(), owner_peer_id@),
    {
        without_exec(&self.connected_peers, owner_peer_id)
    }

    /// How many helpers to take from `candidates` peers: up to 5.
    pub fn helper_count(candidates: usize) -> (r: usize)
        ensures
            r == helper_count_of(candidates as nat),
    {
        if candidates < MAX_HELPERS { candidates } else { MAX_HELPERS }
    }

    /// Handle a new private monitor at `now`, given the candidates ranked best first: the
    /// first (up to 5) become its pending helpers, who are then to be notified. A monitor
    /// that is not private, or finds no helper, changes nothing.
    pub fn handle_new_monitor_at(&mut self, monitor: &Monitor, ranked_candidates: &Vec<String>, now: u64) -> (r: Result<
        Vec<String>,
        PrivateError,
    >)
        requires
            old(self).wf(),
        ensures
            final(self).wf(),
            final(self).assignments_spec() == old(self).assignments_spec(),
            final(self).status_spec() == old(self).status_spec(),
            final(self).connected_spec() == old(self).connected_spec(),
            final(self).synced_spec() == old(self).synced_spec(),
            final(self).last_sync_spec() == old(self).last_sync_spec(),
            monitor.visibility != MonitorVisibility::Private ==> (r matches Ok(h) && h@.len() == 0 && final(self).pending_spec() == old(self).pending_spec()),
            monitor.visibility == MonitorVisibility::Private && monitor.owner_peer_id is None ==> r == Err::<Vec<String>, PrivateError>(
                PrivateError::MissingOwner,
            ) && final(self).pending_spec() == old(self).pending_spec(),
            monitor.visibility == MonitorVisibility::Private && monitor.owner_peer_id is Some ==> (r matches Ok(h) && strs(h@)
                == strs(ranked_candidates@).take(helper_count_of(ranked_candidates@.len()) as int) && (h@.len() == 0
                ==> final(self).pending_spec() == old(self).pending_spec()) && (h@.len() > 0 ==> final(self).pending_spec()
                == set_k(old(self).pending_spec(), uuid_text(monitor.uuid), (strs(h@), now)))),
    {
        if !monitor.is_private() {
            return Ok(Vec::new());
        }
        if monitor.owner_peer_id.is_none() {
            return Err(PrivateError::MissingOwner);
        }
        let count = PrivateMonitorOrchestrator::helper_count(ranked_candidates.len());
        let mut helpers: Vec<String> = Vec::new();
        let mut i: usize = 0;
        while i < count
            invariant
                i <= count,
                count <= ranked_candidates@.len(),
                strs(helpers@) == strs(ranked_candidates@).take(i as int),
            decreases count - i,
        {
            let ghost before = helpers@;
            helpers.push(ranked_candidates[i].clone());
            proof {
                assert(strs(helpers@) =~= strs(before).push(ranked_candidates@[i as int]@));
                assert(strs(ranked_candidates@).take(i + 1) =~= strs(ranked_candidates@).take(i as int).push(
                    strs(ranked_candidates@)[i as int],
                ));
            }
            i = i + 1;
        }
        if helpers.len() == 0 {
            return Ok(helpers);
        }
        let key = uuid_string(monitor.uuid);
        let entry = PendingAssignment { monitor_uuid: key, helpers: copy_strs(&helpers), assigned_at: now };
        self.put_pending(entry);
        Ok(helpers)
    }

    fn put_pending(&mut self, entry: PendingAssignment)
        requires
            old(self).wf(),
        ensures
            final(self).wf(),
            final(self).pending_spec() == set_k(
                old(self).pending_spec(),
                entry.monitor_uuid@,
                (strs(entry.helpers@), entry.assigned_at),
            ),
            final(self).assignments_spec() == old(self).assignments_spec(),
            final(self).status_spec() == old(self).status_spec(),
            final(self).connected_spec() == old(self).connected_spec(),
            final(self).synced_spec() == old(self).synced_spec(),
            final(self).last_sync_spec() == old(self).last_sync_spec(),
    {
        let ghost v = self.pending_spec();
        let ghost k = entry.monitor_uuid@;
        let ghost val = (strs(entry.helpers@), entry.assigned_at);
        match self.pending_index(entry.monitor_uuid.as_str()) {
            Some(i) => {
                self.pending_assignments.set(i, entry);
                assert(self.pending_spec() =~= v.update(i as int, (k, val)));
                proof {
                    let u = self.pending_spec();
                    assert forall|a: int, b: int| 0 <= a < b < u.len() implies u[a].0 != u[b].0 by {
                        assert(u[a].0 == v[a].0 && u[b].0 == v[b].0);
                    }
                }
            },
            None => {
                self.pending_assignments.push(entry);
                assert(self.pending_spec() =~= v.push((k, val)));
                proof {
                    let u = self.pending_spec();
                    assert forall|a: int, b: int| 0 <= a < b < u.len() implies u[a].0 != u[b].0 by {
                        if b == v.len() && u[a].0 == k {
                            assert(v[a].0 == k);
                        }
                    }
                }
            },
        }
    }

    /// Whether this node should check a private monitor: it owns it, or is one of its
    /// confirmed helpers.
    pub fn should_check_now(&self, monitor: &Monitor) -> (r: bool)
        requires
            self.wf(),
        ensures
            r == (monitor.visibility == MonitorVisibility::Private && ((monitor.owner_peer_id matches Some(o) && o@ == self.peer_id_spec())
                || (get_k(self.assignments_spec(), uuid_text(monitor.uuid)) matches Some(hs)
                && hs.contains(self.peer_id_spec())))),
    {
        if !monitor.is_private() {
            return false;
        }
        match &monitor.owner_peer_id {
            Some(o) => {
                if str_equal(o.as_str(), self.peer_id.as_str()) {
                    return true;
                }
            },
            None => {},
        }
        let key = uuid_string(monitor.uuid);
        match self.assignment_index(key.as_str()) {
            Some(i) => contains_str(&self.assignments[i].helpers, self.peer_id.as_str()),
            None => false,
        }
    }

    /// Replace the connected peers (each listed once).
    pub fn update_connected_peers(&mut self, peers: Vec<String>)
        requires
            old(self).wf(),
        ensures
            final(self).wf(),
            forall|p: Seq<char>| #[trigger] final(self).connected_spec().contains(p) <==> strs(peers@).contains(p),
            final(self).assignments_spec() == old(self).assignments_spec(),
            final(self).pending_spec() == old(self).pending_spec(),
            final(self).status_spec() == old(self).status_spec(),
            final(self).synced_spec() == old(self).synced_spec(),
            final(self).last_sync_spec() == old(self).last_sync_spec(),
    {
        self.connected_peers = Vec::new();
        assert(self.connected_spec() =~= seq![]);
        let mut i: usize = 0;
        while i < peers.len()
            invariant
                i <= peers@.len(),
                self.connected_spec().no_duplicates(),
                distinct_k(self.assignments_spec()),
                distinct_k(self.status_spec()),
                distinct_k(self.pending_spec()),
                distinct_k(self.synced_spec()),
                self.assignments_spec() == old(self).assignments_spec(),
                self.pending_spec() == old(self).pending_spec(),
                self.status_spec() == old(self).status_spec(),
                self.synced_spec() == old(self).synced_spec(),
                self.last_sync_spec() == old(self).last_sync_spec(),
                forall|p: Seq<char>| #[trigger] self.connected_spec().contains(p) <==> strs(peers@).take(i as int).contains(p),
            decreases peers@.len() - i,
        {
            let p = peers[i].clone();
            proof {
                assert(strs(peers@).take(i + 1) =~= strs(peers@).take(i as int).push(p@));
            }
            let ghost c0 = self.connected_spec();
            let ghost pv = p@;
            self.handle_peer_connected(p);
            proof {
                let t1 = strs(peers@).take(i + 1);
                let t0 = strs(peers@).take(i as int);
                let c1 = self.connected_spec();
                assert forall|q: Seq<char>| c1.contains(q) <==> (c0.contains(q) || q == pv) by {
                    if c1.contains(q) && !c0.contains(pv) {
                        let k = choose|k: int| 0 <= k < c1.len() && c1[k] == q;
                        if k < c0.len() {
                            assert(c0[k] == q);
                        }
                    }
                    if c0.contains(q) && !c0.contains(pv) {
                        let k = choose|k: int| 0 <= k < c0.len() && c0[k] == q;
                        assert(c1[k] == q);
                    }
                    if q == pv && !c0.contains(pv) {
                        assert(c1[c0.len() as int] == pv);
                    }
                }
                assert forall|q: Seq<char>| #[trigger] self.connected_spec().contains(q) <==> t1.contains(q) by {
                    if c1.contains(q) {
                        if q == pv {
                            assert(t1[i as int] == strs(peers@)[i as int]);
                            assert(t1[i as int] == pv);
                        } else {
                            assert(c0.contains(q));
                            assert(t0.contains(q));
                            let j = choose|j: int| 0 <= j < t0.len() && t0[j] == q;
                            assert(t0[j] == strs(peers@)[j]);
                            assert(t1[j] == strs(peers@)[j]);
                        }
                    }
                    if t1.contains(q) {
                        let j = choose|j: int| 0 <= j < t1.len() && t1[j] == q;
                        assert(t1[j] == strs(peers@)[j]);
                        if j < i {
                            assert(t0[j] == strs(peers@)[j]);
                            assert(t0.contains(q));
                        } else {
                            assert(q == pv);
                        }
                    }
                    if t0.contains(q) {
                        let j = choose|j: int| 0 <= j < t0.len() && t0[j] == q;
                        assert(t0[j] == strs(peers@)[j]);
                        assert(t1[j] == strs(peers@)[j]);
                        assert(t1.contains(q));
                    }
                }
            }
            i = i + 1;
        }
        assert(strs(peers@).take(peers@.len() as int) =~= strs(peers@));
    }

    /// Handle a peer connecting.
    pub fn handle_peer_connected(&mut self, peer_id: String)
        requires
            old(self).wf(),
        ensures
            final(self).wf(),
            final(self).connected_spec() == (if old(self).connected_spec().contains(peer_id@) {
                old(self).connected_spec()
            } else {
                old(self).connected_spec().push(peer_id@)
            }),
            final(self).assignments_spec() == old(self).assignments_spec(),
            final(self).pending_spec() == old(self).pending_spec(),
            final(self).status_spec() == old(self).status_spec(),
            final(self).synced_spec() == old(self).synced_spec(),
            final(self).last_sync_spec() == old(self).last_sync_spec(),
    {
        let ghost v = self.connected_spec();
        if !contains_str(&self.connected_peers, peer_id.as_str()) {
            let ghost p = peer_id@;
            self.connected_peers.push(peer_id);
            assert(self.connected_spec() =~= v.push(p));
            proof {
                let u = self.connected_spec();
                assert forall|a: int, b: int| 0 <= a < b < u.len() implies u[a] != u[b] by {
                    if b == v.len() && u[a] == p {
                        assert(v[a] == p);
                        assert(v.contains(p));
                    }
                }
            }
        }
    }

    /// Handle a peer disconnecting: it leaves the connected peers, every helper list and the
    /// helper statuses. Returns the monitors that lost it as a helper and are left with
    /// fewer than 3 helpers, which need replacement helpers.
    pub fn handle_peer_disconnected(&mut self, peer_id: &str) -> (r: Vec<String>)
        requires
            old(self).wf(),
        ensures
            final(self).wf(),
            strs(r@) == needing_rebalance(old(self).assignments_spec(), peer_id@),
            final(self).connected_spec() == without(old(self).connected_spec(), peer_id@),
            final(self).assignments_spec() == drop_helper(old(self).assignments_spec(), peer_id@),
            final(self).status_spec() == del_k(old(self).status_spec(), peer_id@),
            final(self).pending_spec() == old(self).pending_spec(),
            final(self).synced_spec() == old(self).synced_spec(),
            final(self).last_sync_spec() == old(self).last_sync_spec(),
    {
        let ghost old_connected = self.connected_spec();
        let new_connected = without_exec(&self.connected_peers, peer_id);
        proof {
            lemma_without_no_duplicates(old_connected, peer_id@);
        }
        self.connected_peers = new_connected;
        let ghost old_assign = self.assignments_spec();
        let mut rebalance: Vec<String> = Vec::new();
        let mut kept: Vec<MonitorHelpers> = Vec::new();
        let mut i: usize = 0;
        while i < self.assignments.len()
            invariant
                i <= self.assignments@.len(),
                old_assign == self.assignments_spec(),
                assignments_view(kept@) == drop_helper(old_assign.take(i as int), peer_id@),
                strs(rebalance@) == needing_rebalance(old_assign.take(i as int), peer_id@),
            decreases self.assignments@.len() - i,
        {
            let e = &self.assignments[i];
            let had = contains_str(&e.helpers, peer_id);
            let remaining = without_exec(&e.helpers, peer_id);
            proof {
                assert(old_assign.take(i + 1).drop_last() =~= old_assign.take(i as int));
                assert(old_assign.take(i + 1).last() == old_assign[i as int]);
                assert(old_assign[i as int] == (e.monitor_uuid@, strs(e.helpers@)));
            }
            if had && remaining.len() < MIN_HELPERS {
                let ghost before = rebalance@;
                rebalance.push(e.monitor_uuid.clone());
                assert(strs(rebalance@) =~= strs(before).push(e.monitor_uuid@));
            }
            let ghost kb = kept@;
            kept.push(MonitorHelpers { monitor_uuid: e.monitor_uuid.clone(), helpers: remaining });
            assert(assignments_view(kept@) =~= assignments_view(kb).push((old_assign[i as int].0, without(old_assign[i as int].1, peer_id@))));
            assert(drop_helper(old_assign.take(i + 1), peer_id@) =~= drop_helper(old_assign.take(i as int), peer_id@).push(
                (old_assign[i as int].0, without(old_assign[i as int].1, peer_id@)),
            ));
            i = i + 1;
        }
        assert(old_assign.take(old_assign.len() as int) =~= old_assign);
        self.assignments = kept;
        proof {
            let u = self.assignments_spec();
            assert forall|a: int, b: int| 0 <= a < b < u.len() implies u[a].0 != u[b].0 by {
                assert(u[a].0 == old_assign[a].0 && u[b].0 == old_assign[b].0);
            }
        }
        self.remove_status(peer_id);
        rebalance
    }

    fn remove_status(&mut self, peer_id: &str)
        requires
            old(self).wf(),
        ensures
            final(self).wf(),
            final(self).status_spec() == del_k(old(self).status_spec(), peer_id@),
            final(self).assignments_spec() == old(self).assignments_spec(),
            final(self).pending_spec() == old(self).pending_spec(),
            final(self).connected_spec() == old(self).connected_spec(),
            final(self).synced_spec() == old(self).synced_spec(),
            final(self).last_sync_spec() == old(self).last_sync_spec(),
    {
        let ghost v = self.status_spec();
        match self.status_index(peer_id) {
            Some(i) => {
                self.helper_status.remove(i);
                assert(self.status_spec() =~= v.remove(i as int));
                proof {
                    let u = self.status_spec();
                    assert forall|a: int, b: int| 0 <= a < b < u.len() implies u[a].0 != u[b].0 by {
                        let a2 = if a < i { a } else { a + 1 };
                        let b2 = if b < i { b } else { b + 1 };
                        assert(u[a] == v[a2] && u[b] == v[b2]);
                    }
                }
            },
            None => {},
        }
    }

    /// The position of a helper's status.
    fn status_index(&self, peer_id: &str) -> (r: Option<usize>)
        requires
            self.wf(),
        ensures
            r matches Some(i) ==> i < self.status_spec().len() && self.status_spec()[i as int].0 == peer_id@
                && has_k(self.status_spec(), peer_id@) && idx_k(self.status_spec(), peer_id@) == i,
            r is None ==> !has_k(self.status_spec(), peer_id@),
    {
        let ghost v = self.status_spec();
        let mut i: usize = 0;
        while i < self.helper_status.len()
            invariant
                i <= self.helper_status@.len(),
                self.status_spec() == v,
                distinct_k(v),
                forall|j: int| 0 <= j < i ==> v[j].0 != peer_id@,
            decreases self.helper_status@.len() - i,
        {
            if str_equal(self.helper_status[i].peer_id.as_str(), peer_id) {
                proof {
                    assert(v[i as int].0 == peer_id@);
                    assert(has_k(v, peer_id@));
                    let c = idx_k(v, peer_id@);
                    if c != i {
                        assert(v[c].0 == v[i as int].0);
                    }
                }
                return Some(i);
            }
            i = i + 1;
        }
        None
    }

    /// Handle a helper accepting an assignment at `now`: its status is confirmed with one
    /// more assignment (a new status is seen at `now`), and when the monitor's assignment
    /// was pending, it becomes confirmed with this helper added.
    pub fn handle_helper_accepted_at(&mut self, monitor_uuid: &str, helper_peer_id: &str, now: u64)
        requires
            old(self).wf(),
            get_k(old(self).status_spec(), helper_peer_id@) matches Some(s) ==> s.1 < usize::MAX,
        ensures
            final(self).wf(),
            final(self).status_spec() == set_k(
                old(self).status_spec(),
                helper_peer_id@,
                match get_k(old(self).status_spec(), helper_peer_id@) {
                    Some(s) => (s.0, (s.1 + 1) as usize, true),
                    None => (now, 1usize, true),
                },
            ),
            has_k(old(self).pending_spec(), monitor_uuid@) ==> final(self).pending_spec() == del_k(
                old(self).pending_spec(),
                monitor_uuid@,
            ) && final(self).assignments_spec() == set_k(
                old(self).assignments_spec(),
                monitor_uuid@,
                match get_k(old(self).assignments_spec(), monitor_uuid@) {
                    Some(hs) => hs.push(helper_peer_id@),
                    None => seq![helper_peer_id@],
                },
            ),
            !has_k(old(self).pending_spec(), monitor_uuid@) ==> final(self).pending_spec() == old(self).pending_spec()
                && final(self).assignments_spec() == old(self).assignments_spec(),
            final(self).connected_spec() == old(self).connected_spec(),
            final(self).synced_spec() == old(self).synced_spec(),
            final(self).last_sync_spec() == old(self).last_sync_spec(),
    {
        // Update helper status.
        let ghost sv = self.status_spec();
        match self.status_index(helper_peer_id) {
            Some(i) => {
                let s = &self.helper_status[i];
                let updated = HelperStatus {
                    peer_id: s.peer_id.clone(),
                    last_seen: s.last_seen,
                    assignment_count: s.assignment_count + 1,
                    confirmed: true,
                };
                self.helper_status.set(i, updated);
                assert(self.status_spec() =~= sv.update(i as int, (helper_peer_id@, (sv[i as int].1.0, (sv[i as int].1.1 + 1) as usize, true))));
                proof {
                    let u = self.status_spec();
                    assert forall|a: int, b: int| 0 <= a < b < u.len() implies u[a].0 != u[b].0 by {
                        assert(u[a].0 == sv[a].0 && u[b].0 == sv[b].0);
                    }
                }
            },
            None => {
                self.helper_status.push(HelperStatus {
                    peer_id: helper_peer_id.to_owned(),
                    last_seen: now,
                    assignment_count: 1,
                    confirmed: true,
                });
                assert(self.status_spec() =~= sv.push((helper_peer_id@, (now, 1usize, true))));
                proof {
                    let u = self.status_spec();
                    assert forall|a: int, b: int| 0 <= a < b < u.len() implies u[a].0 != u[b].0 by {
                        if b == sv.len() && u[a].0 == helper_peer_id@ {
                            assert(sv[a].0 == helper_peer_id@);
                        }
                    }
                }
            },
        }
        // Move from pending to confirmed.
        let ghost pv = self.pending_spec();
        match self.pending_index(monitor_uuid) {
            Some(i) => {
                self.pending_assignments.remove(i);
                assert(self.pending_spec() =~= pv.remove(i as int));
                proof {
                    let u = self.pending_spec();
                    assert forall|a: int, b: int| 0 <= a < b < u.len() implies u[a].0 != u[b].0 by {
                        let a2 = if a < i { a } else { a + 1 };
                        let b2 = if b < i { b } else { b + 1 };
                        assert(u[a] == pv[a2] && u[b] == pv[b2]);
                    }
                }
                self.add_helper(monitor_uuid, helper_peer_id);
            },
            None => {},
        }
    }

    fn add_helper(&mut self, monitor_uuid: &str, helper_peer_id: &str)
        requires
            old(self).wf(),
        ensures
            final(self).wf(),
            final(self).assignments_spec() == set_k(
                old(self).assignments_spec(),
                monitor_uuid@,
                match get_k(old(self).assignments_spec(), monitor_uuid@) {
                    Some(hs) => hs.push(helper_peer_id@),
                    None => seq![helper_peer_id@],
                },
            ),
            final(self).status_spec() == old(self).status_spec(),
            final(self).pending_spec() == old(self).pending_spec(),
            final(self).connected_spec() == old(self).connected_spec(),
            final(self).synced_spec() == old(self).synced_spec(),
            final(self).last_sync_spec() == old(self).last_sync_spec(),
    {
        let ghost v = self.assignments_spec();
        match self.assignment_index(monitor_uuid) {
            Some(i) => {
                let mut hs = copy_strs(&self.assignments[i].helpers);
                let ghost h0 = hs@;
                hs.push(helper_peer_id.to_owned());
                assert(strs(hs@) =~= strs(h0).push(helper_peer_id@));
                let m = self.assignments[i].monitor_uuid.clone();
                self.assignments.set(i, MonitorHelpers { monitor_uuid: m, helpers: hs });
                assert(self.assignments_spec() =~= v.update(i as int, (monitor_uuid@, v[i as int].1.push(helper_peer_id@))));
                proof {
                    let u = self.assignments_spec();
                    assert forall|a: int, b: int| 0 <= a < b < u.len() implies u[a].0 != u[b].0 by {
                        assert(u[a].0 == v[a].0 && u[b].0 == v[b].0);
                    }
                }
            },
            None => {
                let mut hs: Vec<String> = Vec::new();
                hs.push(helper_peer_id.to_owned());
                assert(strs(hs@) =~= seq![helper_peer_id@]);
                self.assignments.push(MonitorHelpers { monitor_uuid: monitor_uuid.to_owned(), helpers: hs });
                assert(self.assignments_spec() =~= v.push((monitor_uuid@, seq![helper_peer_id@])));
                proof {
                    let u = self.assignments_spec();
                    assert forall|a: int, b: int| 0 <= a < b < u.len() implies u[a].0 != u[b].0 by {
                        if b == v.len() && u[a].0 == monitor_uuid@ {
                            assert(v[a].0 == monitor_uuid@);
                        }
                    }
                }
            },
        }
    }

    /// Handle a helper rejecting an assignment: it leaves the monitor's pending helpers (the
    /// caller then looks for a replacement).
    pub fn handle_helper_rejected(&mut self, monitor_uuid: &str, helper_peer_id: &str)
        requires
            old(self).wf(),
        ensures
            final(self).wf(),
            final(self).pending_spec() == match get_k(old(self).pending_spec(), monitor_uuid@) {
                Some(p) => set_k(old(self).pending_spec(), monitor_uuid@, (without(p.0, helper_peer_id@), p.1)),
                None => old(self).pending_spec(),
            },
            final(self).assignments_spec() == old(self).assignments_spec(),
            final(self).status_spec() == old(self).status_spec(),
            final(self).connected_spec() == old(self).connected_spec(),
            final(self).synced_spec() == old(self).synced_spec(),
            final(self).last_sync_spec() == old(self).last_sync_spec(),
    {
        let ghost v = self.pending_spec();
        match self.pending_index(monitor_uuid) {
            Some(i) => {
                let remaining = without_exec(&self.pending_assignments[i].helpers, helper_peer_id);
                let m = self.pending_assignments[i].monitor_uuid.clone();
                let at = self.pending_assignments[i].assigned_at;
                self.pending_assignments.set(i, PendingAssignment { monitor_uuid: m, helpers: remaining, assigned_at: at });
                assert(self.pending_spec() =~= v.update(i as int, (monitor_uuid@, (without(v[i as int].1.0, helper_peer_id@), v[i as int].1.1))));
                proof {
                    let u = self.pending_spec();
                    assert forall|a: int, b: int| 0 <= a < b < u.len() implies u[a].0 != u[b].0 by {
                        assert(u[a].0 == v[a].0 && u[b].0 == v[b].0);
                    }
                }
            },
            None => {},
        }
    }

    /// Handle a result from a helper at `now`: a known helper is seen at `now`.
    pub fn handle_helper_result_at(&mut self, helper_peer_id: &str, now: u64)
        requires
            old(self).wf(),
        ensures
            final(self).wf(),
            final(self).status_spec() == match get_k(old(self).status_spec(), helper_peer_id@) {
                Some(s) => set_k(old(self).status_spec(), helper_peer_id@, (now, s.1, s.2)),
                None => old(self).status_spec(),
            },
            final(self).assignments_spec() == old(self).assignments_spec(),
            final(self).pending_spec() == old(self).pending_spec(),
            final(self).connected_spec() == old(self).connected_spec(),
            final(self).synced_spec() == old(self).synced_spec(),
            final(self).last_sync_spec() == old(self).last_sync_spec(),
    {
        let ghost sv = self.status_spec();
        match self.status_index(helper_peer_id) {
            Some(i) => {
                let s = &self.helper_status[i];
                let updated = HelperStatus {
                    peer_id: s.peer_id.clone(),
                    last_seen: now,
                    assignment_count: s.assignment_count,
                    confirmed: s.confirmed,
                };
                self.helper_status.set(i, updated);
                assert(self.status_spec() =~= sv.update(i as int, (helper_peer_id@, (now, sv[i as int].1.1, sv[i as int].1.2))));
                proof {
                    let u = self.status_spec();
                    assert forall|a: int, b: int| 0 <= a < b < u.len() implies u[a].0 != u[b].0 by {
                        assert(u[a].0 == sv[a].0 && u[b].0 == sv[b].0);
                    }
                }
            },
            None => {},
        }
    }

    /// Check helper health at `now`: helpers not seen for more than `stale_threshold`
    /// seconds are stale. Their statuses are dropped; returns the stale helpers and the
    /// monitors that had one of them, which are to be reassigned.
    pub fn check_helper_health_at(&mut self, now: u64, stale_threshold: u64) -> (r: (Vec<String>, Vec<String>))
        requires
            old(self).wf(),
        ensures
            final(self).wf(),
            strs(r.0@) == stale_of(old(self).status_spec(), now, stale_threshold),
            strs(r.1@) == with_stale_helper(old(self).assignments_spec(), stale_of(old(self).status_spec(), now, stale_threshold)),
            final(self).status_spec() == fresh_of(old(self).status_spec(), now, stale_threshold),
            final(self).assignments_spec() == old(self).assignments_spec(),
            final(self).pending_spec() == old(self).pending_spec(),
            final(self).connected_spec() == old(self).connected_spec(),
            final(self).synced_spec() == old(self).synced_spec(),
            final(self).last_sync_spec() == old(self).last_sync_spec(),
    {
        let ghost sv = self.status_spec();
        let mut stale: Vec<String> = Vec::new();
        let mut fresh: Vec<HelperStatus> = Vec::new();
        let mut i: usize = 0;
        while i < self.helper_status.len()
            invariant
                i <= self.helper_status@.len(),
                sv == self.status_spec(),
                strs(stale@) == stale_of(sv.take(i as int), now, stale_threshold),
                status_view(fresh@) == fresh_of(sv.take(i as int), now, stale_threshold),
            decreases self.helper_status@.len() - i,
        {
            let s = &self.helper_status[i];
            proof {
                assert(sv.take(i + 1).drop_last() =~= sv.take(i as int));
                assert(sv.take(i + 1).last() == sv[i as int]);
                assert(sv[i as int] == (s.peer_id@, (s.last_seen, s.assignment_count, s.confirmed)));
            }
            if now >= s.last_seen && now - s.last_seen > stale_threshold {
                let ghost b = stale@;
                stale.push(s.peer_id.clone());
                assert(strs(stale@) =~= strs(b).push(s.peer_id@));
            } else {
                let ghost b = fresh@;
                fresh.push(HelperStatus {
                    peer_id: s.peer_id.clone(),
                    last_seen: s.last_seen,
                    assignment_count: s.assignment_count,
                    confirmed: s.confirmed,
                });
                assert(status_view(fresh@) =~= status_view(b).push(sv[i as int]));
            }
            i = i + 1;
        }
        assert(sv.take(sv.len() as int) =~= sv);
        let ghost stale_v = strs(stale@);
        let ghost av = self.assignments_spec();
        let mut monitors: Vec<String> = Vec::new();
        let mut k: usize = 0;
        while k < self.assignments.len()
            invariant
                k <= self.assignments@.len(),
                av == self.assignments_spec(),
                stale_v == strs(stale@),
                strs(monitors@) == with_stale_helper(av.take(k as int), stale_v),
            decreases self.assignments@.len() - k,
        {
            let e = &self.assignments[k];
            proof {
                assert(av.take(k + 1).drop_last() =~= av.take(k as int));
                assert(av.take(k + 1).last() == av[k as int]);
                assert(av[k as int] == (e.monitor_uuid@, strs(e.helpers@)));
            }
            let mut any = false;
            let mut h: usize = 0;
            while h < e.helpers.len()
                invariant
                    h <= e.helpers@.len(),
                    stale_v == strs(stale@),
                    any == exists|x: int| 0 <= x < h && stale_v.contains(#[trigger] strs(e.helpers@)[x]),
                decreases e.helpers@.len() - h,
            {
                if contains_str(&stale, e.helpers[h].as_str()) {
                    assert(stale_v.contains(strs(e.helpers@)[h as int]));
                    any = true;
                }
                h = h + 1;
            }
            if any {
                let ghost b = monitors@;
                monitors.push(e.monitor_uuid.clone());
                assert(strs(monitors@) =~= strs(b).push(e.monitor_uuid@));
            }
            k = k + 1;
        }
        assert(av.take(av.len() as int) =~= av);
        self.helper_status = fresh;
        proof {
            lemma_fresh_of_distinct(sv, now, stale_threshold);
        }
        (stale, monitors)
    }

    /// Drops a monitor's confirmed helpers (before it is reassigned).
    pub fn clear_assignment(&mut self, monitor_uuid: &str)
        requires
            old(self).wf(),
        ensures
            final(self).wf(),
            final(self).assignments_spec() == del_k(old(self).assignments_spec(), monitor_uuid@),
            final(self).status_spec() == old(self).status_spec(),
            final(self).pending_spec() == old(self).pending_spec(),
            final(self).connected_spec() == old(self).connected_spec(),
            final(self).synced_spec() == old(self).synced_spec(),
            final(self).last_sync_spec() == old(self).last_sync_spec(),
    {
        let ghost v = self.assignments_spec();
        match self.assignment_index(monitor_uuid) {
            Some(i) => {
                self.assignments.remove(i);
                assert(self.assignments_spec() =~= v.remove(i as int));
                proof {
                    let u = self.assignments_spec();
                    assert forall|a: int, b: int| 0 <= a < b < u.len() implies u[a].0 != u[b].0 by {
                        let a2 = if a < i { a } else { a + 1 };
                        let b2 = if b < i { b } else { b + 1 };
                        assert(u[a] == v[a2] && u[b] == v[b2]);
                    }
                }
            },
            None => {},
        }
    }

    /// Check pending assignments at `now`: those waiting more than 30 seconds are dropped
    /// and returned, to be reassigned.
    pub fn check_pending_timeouts_at(&mut self, now: u64) -> (r: Vec<String>)
        requires
            old(self).wf(),
        ensures
            final(self).wf(),
            strs(r@) == timed_out_of(old(self).pending_spec(), now),
            final(self).pending_spec() == waiting_of(old(self).pending_spec(), now),
            final(self).assignments_spec() == old(self).assignments_spec(),
            final(self).status_spec() == old(self).status_spec(),
            final(self).connected_spec() == old(self).connected_spec(),
            final(self).synced_spec() == old(self).synced_spec(),
            final(self).last_sync_spec() == old(self).last_sync_spec(),
    {
        let ghost pv = self.pending_spec();
        let mut out: Vec<String> = Vec::new();
        let mut waiting: Vec<PendingAssignment> = Vec::new();
        let mut i: usize = 0;
        while i < self.pending_assignments.len()
            invariant
                i <= self.pending_assignments@.len(),
                pv == self.pending_spec(),
                strs(out@) == timed_out_of(pv.take(i as int), now),
                pending_view(waiting@) == waiting_of(pv.take(i as int), now),
            decreases self.pending_assignments@.len() - i,
        {
            let p = &self.pending_assignments[i];
            proof {
                assert(pv.take(i + 1).drop_last() =~= pv.take(i as int));
                assert(pv.take(i + 1).last() == pv[i as int]);
                assert(pv[i as int] == (p.monitor_uuid@, (strs(p.helpers@), p.assigned_at)));
            }
            if now >= p.assigned_at && now - p.assigned_at > ASSIGNMENT_TIMEOUT_SECS {
                let ghost b = out@;
                out.push(p.monitor_uuid.clone());
                assert(strs(out@) =~= strs(b).push(p.monitor_uuid@));
            } else {
                let ghost b = waiting@;
                waiting.push(PendingAssignment {
                    monitor_uuid: p.monitor_uuid.clone(),
                    helpers: copy_strs(&p.helpers),
                    assigned_at: p.assigned_at,
                });
                assert(pending_view(waiting@) =~= pending_view(b).push(pv[i as int]));
            }
            i = i + 1;
        }
        assert(pv.take(pv.len() as int) =~= pv);
        self.pending_assignments = waiting;
        proof {
            lemma_waiting_of_distinct(pv, now);
        }
        out
    }
}

proof fn lemma_without_no_duplicates(hs: Seq<Seq<char>>, p: Seq<char>)
    requires
        hs.no_duplicates(),
    ensures
        without(hs, p).no_duplicates(),
        forall|q: Seq<char>| without(hs, p).contains(q) ==> hs.contains(q),
    decreases hs.len(),
{
    if hs.len() > 0 {
        let d = hs.drop_last();
        assert(d.no_duplicates()) by {
            assert forall|i: int, j: int| 0 <= i < d.len() && 0 <= j < d.len() && i != j implies d[i] != d[j] by {
                assert(d[i] == hs[i] && d[j] == hs[j]);
            }
        }
        lemma_without_no_duplicates(d, p);
        let w = without(d, p);
        assert forall|q: Seq<char>| without(hs, p).contains(q) implies hs.contains(q) by {
            if hs.last() != p && q == hs.last() {
                assert(hs[hs.len() - 1] == q);
            } else {
                assert(w.contains(q) || q == hs.last()) by {
                    if hs.last() != p {
                        let k = choose|k: int| 0 <= k < w.push(hs.last()).len() && w.push(hs.last())[k] == q;
                        if k < w.len() {
                            assert(w[k] == q);
                        }
                    }
                }
                if w.contains(q) {
                    assert(d.contains(q));
                    let k = choose|k: int| 0 <= k < d.len() && d[k] == q;
                    assert(hs[k] == q);
                } else {
                    assert(hs[hs.len() - 1] == q);
                }
            }
        }
        if hs.last() != p {
            let u = w.push(hs.last());
            assert forall|i: int, j: int| 0 <= i < u.len() && 0 <= j < u.len() && i != j implies u[i] != u[j] by {
                if j == w.len() && i < w.len() {
                    if w[i] == hs.last() {
                        assert(w.contains(hs.last()));
                        assert(d.contains(hs.last()));
                        let k = choose|k: int| 0 <= k < d.len() && d[k] == hs.last();
                        assert(hs[k] == hs[hs.len() - 1]);
                    }
                } else if i == w.len() && j < w.len() {
                    if w[j] == hs.last() {
                        assert(w.contains(hs.last()));
                        assert(d.contains(hs.last()));
                        let k = choose|k: int| 0 <= k < d.len() && d[k] == hs.last();
                        assert(hs[k] == hs[hs.len() - 1]);
                    }
                }
            }
        }
    }
}

proof fn lemma_fresh_of_distinct(s: Seq<(Seq<char>, (u64, usize, bool))>, now: u64, threshold: u64)
    requires
        distinct_k(s),
    ensures
        distinct_k(fresh_of(s, now, threshold)),
        forall|k: Seq<char>| has_k(fresh_of(s, now, threshold), k) ==> has_k(s, k),
    decreases s.len(),
{
    if s.len() > 0 {
        let d = s.drop_last();
        assert(distinct_k(d)) by {
            assert forall|i: int, j: int| 0 <= i < j < d.len() implies d[i].0 != d[j].0 by {
                assert(d[i] == s[i] && d[j] == s[j]);
            }
        }
        lemma_fresh_of_distinct(d, now, threshold);
        let f = fresh_of(d, now, threshold);
        assert forall|k: Seq<char>| has_k(fresh_of(s, now, threshold), k) implies has_k(s, k) by {
            let g = fresh_of(s, now, threshold);
            let i = choose|i: int| 0 <= i < g.len() && #[trigger] g[i].0 == k;
            if i < f.len() {
                assert(f[i].0 == k);
                assert(has_k(f, k));
                assert(has_k(d, k));
                let j = choose|j: int| 0 <= j < d.len() && #[trigger] d[j].0 == k;
                assert(s[j].0 == k);
            } else {
                assert(s[s.len() - 1].0 == k);
            }
        }
        if !is_stale(s.last().1.0, now, threshold) {
            let u = f.push(s.last());
            assert forall|a: int, b: int| 0 <= a < b < u.len() implies u[a].0 != u[b].0 by {
                if b == f.len() && u[a].0 == s.last().0 {
                    assert(f[a].0 == s.last().0);
                    assert(has_k(f, s.last().0));
                    assert(has_k(d, s.last().0));
                    let j = choose|j: int| 0 <= j < d.len() && #[trigger] d[j].0 == s.last().0;
                    assert(s[j].0 == s[s.len() - 1].0);
                }
            }
        }
    }
}

proof fn lemma_waiting_of_distinct(s: Seq<(Seq<char>, (Seq<Seq<char>>, u64))>, now: u64)
    requires
        distinct_k(s),
    ensures
        distinct_k(waiting_of(s, now)),
        forall|k: Seq<char>| has_k(waiting_of(s, now), k) ==> has_k(s, k),
    decreases s.len(),
{
    if s.len() > 0 {
        let d = s.drop_last();
        assert(distinct_k(d)) by {
            assert forall|i: int, j: int| 0 <= i < j < d.len() implies d[i].0 != d[j].0 by {
                assert(d[i] == s[i] && d[j] == s[j]);
            }
        }
        lemma_waiting_of_distinct(d, now);
        let f = waiting_of(d, now);
        assert forall|k: Seq<char>| has_k(waiting_of(s, now), k) implies has_k(s, k) by {
            let g = waiting_of(s, now);
            let i = choose|i: int| 0 <= i < g.len() && #[trigger] g[i].0 == k;
            if i < f.len() {
                assert(f[i].0 == k);
                assert(has_k(f, k));
                assert(has_k(d, k));
                let j = choose|j: int| 0 <= j < d.len() && #[trigger] d[j].0 == k;
                assert(s[j].0 == k);
            } else {
                assert(s[s.len() - 1].0 == k);
            }
        }
        if !timed_out(s.last().1.1, now) {
            let u = f.push(s.last());
            assert forall|a: int, b: int| 0 <= a < b < u.len() implies u[a].0 != u[b].0 by {
                if b == f.len() && u[a].0 == s.last().0 {
                    assert(f[a].0 == s.last().0);
                    assert(has_k(f, s.last().0));
                    assert(has_k(d, s.last().0));
                    let j = choose|j: int| 0 <= j < d.len() && #[trigger] d[j].0 == s.last().0;
                    assert(s[j].0 == s[s.len() - 1].0);
                }
            }
        }
    }
}

/// The key of batch `index` of a monitor's results.
pub open spec fn batch_key_text(monitor: Seq<char>, index: nat) -> Seq<char> {
    monitor + "-"@ + crate::json::decimal(index)
}

/// The monitors whose results an owner sync looks up: those with confirmed helpers.
pub open spec fn sync_monitors(a: Seq<(Seq<char>, Seq<Seq<char>>)>) -> Seq<Seq<char>> {
    a.map_values(|e: (Seq<char>, Seq<Seq<char>>)| e.0)
}

/// The next batch an owner sync looks up, starting from monitor `m` and batch `b`: batches
/// already synced are passed over, and after batch 99 the sync goes on with the next
/// monitor. `None` when every monitor is done.
pub open spec fn next_pending(monitors: Seq<Seq<char>>, synced: Seq<(Seq<char>, i64)>, m: nat, b: nat) -> Option<
    (nat, nat),
>
    decreases monitors.len() - m, SYNC_BATCH_LIMIT - b,
{
    if m >= monitors.len() {
        None
    } else if b >= SYNC_BATCH_LIMIT {
        next_pending(monitors, synced, m + 1, 0)
    } else if has_k(synced, batch_key_text(monitors[m as int], b)) {
        next_pending(monitors, synced, m, b + 1)
    } else {
        Some((m, b))
    }
}

/// An owner sync never looks a batch up twice: the batch it goes to next is one not yet
/// synced, of a monitor it covers, below the batch limit, and not before where it stands.
pub proof fn lemma_next_pending_is_unsynced(monitors: Seq<Seq<char>>, synced: Seq<(Seq<char>, i64)>, m: nat, b: nat)
    ensures
        next_pending(monitors, synced, m, b) matches Some((m2, b2)) ==> m <= m2 < monitors.len() && b2
            < SYNC_BATCH_LIMIT && !has_k(synced, batch_key_text(monitors[m2 as int], b2)) && (m2 == m ==> b <= b2),
    decreases monitors.len() - m, SYNC_BATCH_LIMIT - b,
{
    if m >= monitors.len() {
    } else if b >= SYNC_BATCH_LIMIT {
        lemma_next_pending_is_unsynced(monitors, synced, m + 1, 0);
    } else if has_k(synced, batch_key_text(monitors[m as int], b)) {
        lemma_next_pending_is_unsynced(monitors, synced, m, b + 1);
    }
}

/// What looking a result batch up in the DHT gave.
#[derive(Debug, Clone, Copy, PartialEq, Eq, Structural)]
pub enum BatchLookup {
    /// The batch was found and decrypted; its results were stored.
    Decrypted,
    /// The batch was found but could not be decrypted.
    Undecryptable,
    /// No batch under this key: the monitor has no more.
    NotFound,
    /// The lookup failed (for instance, it timed out).
    Failed,
}

/// What an owner sync does next.
#[derive(Debug)]
pub enum SyncAction {
    /// Look up this batch (its key, and the DHT key it is stored under).
    Lookup { batch_key: String, dht_key: String },
    /// Every monitor is done.
    Finished,
}

/// Where an owner sync stands: the monitors it covers and the batch it is at.
#[derive(Debug)]
pub struct OwnerSync {
    monitors: Vec<String>,
    monitor: usize,
    batch: u32,
}

impl OwnerSync {
    /// The monitors the sync covers.
    pub closed spec fn monitors_spec(&self) -> Seq<Seq<char>> {
        strs(self.monitors@)
    }

    /// The monitor and batch the sync is at.
    pub closed spec fn position_spec(&self) -> (nat, nat) {
        (self.monitor as nat, self.batch as nat)
    }

    /// The sync's position lies within its monitors and batches.
    pub open spec fn wf(&self) -> bool {
        self.position_spec().0 <= self.monitors_spec().len() && self.position_spec().1 <= SYNC_BATCH_LIMIT
    }
}

impl PrivateMonitorOrchestrator {
    /// Starts an owner sync over the monitors that have confirmed helpers, at their first
    /// batch.
    pub fn start_owner_sync(&self) -> (r: OwnerSync)
        ensures
            r.wf(),
            r.monitors_spec() == sync_monitors(self.assignments_spec()),
            r.position_spec() == (0nat, 0nat),
    {
        let mut monitors: Vec<String> = Vec::new();
        let mut i: usize = 0;
        while i < self.assignments.len()
            invariant
                i <= self.assignments@.len(),
                strs(monitors@) == sync_monitors(self.assignments_spec()).take(i as int),
            decreases self.assignments@.len() - i,
        {
            let ghost before = monitors@;
            monitors.push(self.assignments[i].monitor_uuid.clone());
            assert(strs(monitors@) =~= strs(before).push(self.assignments@[i as int].monitor_uuid@));
            assert(sync_monitors(self.assignments_spec()).take(i + 1) =~= sync_monitors(self.assignments_spec()).take(
                i as int,
            ).push(sync_monitors(self.assignments_spec())[i as int]));
            i = i + 1;
        }
        assert(sync_monitors(self.assignments_spec()).take(self.assignments@.len() as int) =~= sync_monitors(
            self.assignments_spec(),
        ));
        OwnerSync { monitors, monitor: 0, batch: 0 }
    }

    /// Moves the sync to the next batch to look up, passing over batches already synced,
    /// and says what to do: look that batch up, or finish.
    pub fn next_sync_action(&self, sync: &mut OwnerSync) -> (r: SyncAction)
        requires
            old(sync).wf(),
        ensures
            final(sync).wf(),
            final(sync).monitors_spec() == old(sync).monitors_spec(),
            match next_pending(
                old(sync).monitors_spec(),
                self.synced_spec(),
                old(sync).position_spec().0,
                old(sync).position_spec().1,
            ) {
                None => r is Finished && final(sync).position_spec().0 == old(sync).monitors_spec().len(),
                Some((m, b)) => final(sync).position_spec() == (m, b) && m < old(sync).monitors_spec().len() && b
                    < SYNC_BATCH_LIMIT && (r matches SyncAction::Lookup { batch_key, dht_key } && batch_key@
                    == batch_key_text(old(sync).monitors_spec()[m as int], b) && dht_key@
                    == "uppe-private-results-"@ + batch_key@),
            },
    {
        let ghost target = next_pending(
            sync.monitors_spec(),
            self.synced_spec(),
            sync.position_spec().0,
            sync.position_spec().1,
        );
        while sync.monitor < sync.monitors.len()
            invariant
                sync.wf(),
                sync.monitors_spec() == old(sync).monitors_spec(),
                next_pending(sync.monitors_spec(), self.synced_spec(), sync.position_spec().0, sync.position_spec().1)
                    == target,
                target == next_pending(
                    old(sync).monitors_spec(),
                    self.synced_spec(),
                    old(sync).position_spec().0,
                    old(sync).position_spec().1,
                ),
            decreases sync.monitors@.len() - sync.monitor, SYNC_BATCH_LIMIT - sync.batch,
        {
            if sync.batch >= SYNC_BATCH_LIMIT {
                sync.monitor = sync.monitor + 1;
                sync.batch = 0;
            } else {
                let key = PrivateMonitorOrchestrator::batch_key(sync.monitors[sync.monitor].as_str(), sync.batch);
                assert(sync.monitors_spec()[sync.monitor as int] == sync.monitors@[sync.monitor as int]@);
                assert(key@ == batch_key_text(sync.monitors_spec()[sync.monitor as int], sync.batch as nat));
                assert(sync.monitors_spec().len() == sync.monitors@.len());
                if self.is_batch_synced(key.as_str()) {
                    sync.batch = sync.batch + 1;
                } else {
                    let dht_key = PrivateMonitorOrchestrator::dht_batch_key(key.as_str());
                    return SyncAction::Lookup { batch_key: key, dht_key };
                }
            }
        }
        SyncAction::Finished
    }

    /// Records what the lookup of the sync's current batch gave, at `now`: a decrypted batch
    /// is marked synced; a missing batch ends the monitor, and the sync goes on with the
    /// next one; otherwise the sync goes on with the next batch.
    pub fn record_batch_lookup(&mut self, sync: &mut OwnerSync, lookup: BatchLookup, now: i64)
        requires
            old(self).wf(),
            old(sync).wf(),
            old(sync).position_spec().0 < old(sync).monitors_spec().len(),
            old(sync).position_spec().1 < SYNC_BATCH_LIMIT,
        ensures
            final(self).wf(),
            final(sync).wf(),
            final(sync).monitors_spec() == old(sync).monitors_spec(),
            lookup == BatchLookup::NotFound ==> final(sync).position_spec() == (old(sync).position_spec().0 + 1, 0nat),
            lookup != BatchLookup::NotFound ==> final(sync).position_spec() == (
                old(sync).position_spec().0,
                old(sync).position_spec().1 + 1,
            ),
            lookup == BatchLookup::Decrypted ==> final(self).synced_spec() == set_k(
                old(self).synced_spec(),
                batch_key_text(old(sync).monitors_spec()[old(sync).position_spec().0 as int], old(sync).position_spec().1),
                now,
            ),
            lookup != BatchLookup::Decrypted ==> final(self).synced_spec() == old(self).synced_spec(),
            final(self).assignments_spec() == old(self).assignments_spec(),
            final(self).pending_spec() == old(self).pending_spec(),
            final(self).status_spec() == old(self).status_spec(),
            final(self).connected_spec() == old(self).connected_spec(),
            final(self).last_sync_spec() == old(self).last_sync_spec(),
    {
        let n = sync.monitors.len();
        assert(sync.monitors_spec().len() == sync.monitors@.len());
        assert(sync.monitors_spec()[sync.monitor as int] == sync.monitors@[sync.monitor as int]@);
        if lookup == BatchLookup::Decrypted {
            let key = PrivateMonitorOrchestrator::batch_key(sync.monitors[sync.monitor].as_str(), sync.batch);
            self.mark_batch_synced(key.as_str(), now);
        }
        if lookup == BatchLookup::NotFound {
            sync.monitor = sync.monitor + 1;
            sync.batch = 0;
        } else {
            sync.batch = sync.batch + 1;
        }
    }
}

/// A disconnected peer is no longer connected and helps no monitor.
pub proof fn lemma_disconnected_peer_helps_nothing(
    connected: Seq<Seq<char>>,
    assignments: Seq<(Seq<char>, Seq<Seq<char>>)>,
    p: Seq<char>,
)
    ensures
        !without(connected, p).contains(p),
        forall|i: int| 0 <= i < drop_helper(assignments, p).len() ==> !(#[trigger] drop_helper(assignments, p)[i]).1.contains(p),
{
    lemma_without_absent(connected, p);
    assert forall|i: int| 0 <= i < drop_helper(assignments, p).len() implies !(#[trigger] drop_helper(assignments, p)[i]).1.contains(p) by {
        lemma_without_absent(assignments[i].1, p);
    }
}

/// A monitor never gets more than 5 helpers, nor more than its candidates.
pub proof fn lemma_helper_count_bounded(n: nat)
    ensures
        helper_count_of(n) <= 5,
        helper_count_of(n) <= n,
        n > 0 ==> helper_count_of(n) > 0,
{
}

} // verus!
