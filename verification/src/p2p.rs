//! The decisions of the peer-to-peer network layer: which node a helper assignment is for,
//! what a gossip message is by its topic, which gossiped results are taken, and when the
//! routing table is reported. Running the node itself is left to the service around this
//! library.
use vstd::prelude::*;
use crate::crypto::{ed25519_key_decodes, ed25519_signature_verifies};
use crate::models::{copy_opt_string, CheckResult, PeerResult};
use crate::signing::{check_result_message, ed25519_signature_of, verify_result, verify_result_verdict, KeyPair};
use crate::text::{str_equal, str_starts_with};

verus! {

/// How often the routing table is reported, in seconds.
pub const DHT_SNAPSHOT_INTERVAL_SECONDS: u64 = 30;

/// The settings of this node's network layer.
#[derive(Debug)]
pub struct P2PNetwork {
    peer_id: String,
    enabled: bool,
    /// Ed25519 public key (32 bytes) sent with published results
    public_key: Option<[u8; 32]>,
}

impl P2PNetwork {
    /// The application peer id of this node.
    pub closed spec fn peer_id_spec(&self) -> Seq<char> {
        self.peer_id@
    }

    /// Whether the network is enabled.
    pub closed spec fn enabled_spec(&self) -> bool {
        self.enabled
    }

    /// The public key published results carry, if one was given.
    pub closed spec fn public_key_spec(&self) -> Option<Seq<u8>> {
        match self.public_key {
            Some(k) => Some(k@),
            None => None,
        }
    }

    /// A network layer for `peer_id`, on or off, without a public key.
    pub fn new(peer_id: String, enabled: bool) -> (r: P2PNetwork)
        ensures
            r.peer_id_spec() == peer_id@,
            r.enabled_spec() == enabled,
            r.public_key_spec() is None,
    {
        P2PNetwork { peer_id, enabled, public_key: None }
    }

    /// A network layer for `peer_id`, on or off, whose results carry `public_key`.
    pub fn with_public_key(peer_id: String, enabled: bool, public_key: [u8; 32]) -> (r: P2PNetwork)
        ensures
            r.peer_id_spec() == peer_id@,
            r.enabled_spec() == enabled,
            r.public_key_spec() == Some(public_key@),
    {
        P2PNetwork { peer_id, enabled, public_key: Some(public_key) }
    }

    /// Our peer id.
    pub fn peer_id(&self) -> (r: &str)
        ensures
            r@ == self.peer_id_spec(),
    {
        self.peer_id.as_str()
    }

    /// Whether the network is enabled.
    pub fn is_enabled(&self) -> (r: bool)
        ensures
            r == self.enabled_spec(),
    {
        self.enabled
    }

    /// The key a published result carries: the configured public key, or 32 zero bytes.
    pub fn publish_key(&self) -> (r: [u8; 32])
        ensures
            self.public_key_spec() matches Some(k) ==> r@ == k,
            self.public_key_spec() is None ==> r@ == Seq::new(32, |i: int| 0u8),
    {
        match self.public_key {
            Some(k) => k,
            None => {
                let z = [0u8; 32];
                assert(z@ =~= Seq::new(32, |i: int| 0u8));
                z
            },
        }
    }

    /// Whether a helper assignment names this node, by its application peer id or by its
    /// network-level peer id.
    pub fn assignment_is_for_us(&self, helper_peer_id: &str, network_peer_id: &str) -> (r: bool)
        ensures
            r == (helper_peer_id@ == self.peer_id_spec() || helper_peer_id@ == network_peer_id@),
    {
        str_equal(helper_peer_id, self.peer_id.as_str()) || str_equal(helper_peer_id, network_peer_id)
    }
}

/// What a gossip message is, by the topic it came on.
#[derive(Debug, Clone, Copy, PartialEq, Eq, Structural)]
pub enum GossipKind {
    /// A helper assignment request or response.
    HelperAssignment,
    /// An encrypted result for a private monitor's owner.
    PrivateResult,
    /// A signed result of a public monitor.
    PublicResult,
}

/// The kind of message a topic carries.
pub open spec fn topic_kind(topic: Seq<char>) -> GossipKind {
    if topic == "/uppe/helper-assignments/v1"@ {
        GossipKind::HelperAssignment
    } else if "/uppe/private-results/"@.is_prefix_of(topic) {
        GossipKind::PrivateResult
    } else {
        GossipKind::PublicResult
    }
}

/// Classifies a gossip message by its topic.
pub fn gossip_kind(topic: &str) -> (r: GossipKind)
    ensures
        r == topic_kind(topic@),
{
    if str_equal(topic, "/uppe/helper-assignments/v1") {
        GossipKind::HelperAssignment
    } else if str_starts_with(topic, "/uppe/private-results/") {
        GossipKind::PrivateResult
    } else {
        GossipKind::PublicResult
    }
}

/// A gossiped result is taken when it carries a signature that verifies, under the key it
/// came with, over the result's own signed fields.
pub open spec fn gossip_result_accepted(result: CheckResult, public_key: Seq<u8>) -> bool {
    &&& result.signature matches Some(sig)
    &&& ed25519_key_decodes(public_key)
    &&& sig@.len() == 64
    &&& ed25519_signature_verifies(public_key, check_result_message(result), sig@)
}

/// Checks a result that arrived over gossip with the key it came with, from `from_peer`,
/// at `now`. An unsigned result, a malformed key or a signature that does not verify
/// drops it; otherwise the received result carries the signature, the key and the peer id
/// that the signer declared.
pub fn receive_gossip_result(result: CheckResult, public_key: [u8; 32], from_peer: &str, now: u64) -> (r: Option<
    crate::messages::PeerResult,
>)
    ensures
        r is Some <==> gossip_result_accepted(result, public_key@),
        r matches Some(p) ==> p.result == result && (p.signature matches Some(s) && result.signature matches Some(
            t,
        ) && s@ == t@) && (p.public_key matches Some(k) && k@ == public_key@) && p.peer_id == result.peer_id
            && p.received_at == now,
{
    let signature = match &result.signature {
        Some(s) => s.clone(),
        None => return None,
    };
    let ghost sig_view = signature@;
    assert(result.signature matches Some(s) && s@ == sig_view) by {
        assert(signature@ =~= sig_view);
    }
    let candidate = PeerResult {
        id: None,
        monitor_uuid: result.monitor_id,
        timestamp: result.timestamp,
        status: result.status,
        latency_ms: result.latency_ms,
        status_code: result.status_code,
        error_message: copy_opt_string(&result.error_message),
        peer_id: result.peer_id.clone(),
        signature,
        verified: false,
        created_at: now,
        city: None,
        country: None,
        region: None,
        source_peer_id: Some(from_peer.to_owned()),
        synced_from_peer: false,
        retention_until: None,
    };
    let valid = match verify_result(&candidate, &public_key, result.target.as_str()) {
        Ok(v) => v,
        Err(_) => false,
    };
    if !valid {
        return None;
    }
    let mut key: Vec<u8> = Vec::new();
    let mut i: usize = 0;
    while i < 32
        invariant
            i <= 32,
            key@ =~= public_key@.take(i as int),
        decreases 32 - i,
    {
        key.push(public_key[i]);
        i = i + 1;
    }
    assert(public_key@.take(32) =~= public_key@);
    let signature_copy = match &result.signature {
        Some(s) => {
            let c = s.clone();
            assert(c@ =~= s@);
            Some(c)
        },
        None => None,
    };
    let peer_id = result.peer_id.clone();
    Some(crate::messages::PeerResult {
        result,
        signature: signature_copy,
        public_key: Some(key),
        peer_id,
        received_at: now,
    })
}

/// Whether the routing table is due to be reported again, `elapsed` seconds after the
/// last report.
pub fn dht_snapshot_due(elapsed: u64) -> (r: bool)
    ensures
        r == (elapsed >= DHT_SNAPSHOT_INTERVAL_SECONDS),
{
    elapsed >= DHT_SNAPSHOT_INTERVAL_SECONDS
}

/// The indices of the buckets a snapshot keeps: those holding at least one peer, in order.
pub open spec fn kept_bucket_indices(buckets: Seq<crate::messages::DhtBucket>) -> Seq<usize>
    decreases buckets.len(),
{
    if buckets.len() == 0 {
        seq![]
    } else if buckets.last().peers@.len() > 0 {
        kept_bucket_indices(buckets.drop_last()).push(buckets.last().index)
    } else {
        kept_bucket_indices(buckets.drop_last())
    }
}

/// The indices of a list of buckets.
pub open spec fn bucket_indices(buckets: Seq<crate::messages::DhtBucket>) -> Seq<usize> {
    buckets.map_values(|b: crate::messages::DhtBucket| b.index)
}

/// A snapshot of the routing table of node `local_peer_id` taken at `captured_at`: the
/// buckets that hold at least one peer, in order.
pub fn dht_snapshot(local_peer_id: String, buckets: Vec<crate::messages::DhtBucket>, captured_at: i64) -> (r:
    crate::messages::DhtSnapshot)
    ensures
        r.local_peer_id == local_peer_id,
        r.captured_at == captured_at,
        bucket_indices(r.buckets@) == kept_bucket_indices(buckets@),
        forall|i: int| 0 <= i < r.buckets@.len() ==> (#[trigger] r.buckets@[i]).peers@.len() > 0,
{
    let mut kept: Vec<crate::messages::DhtBucket> = Vec::new();
    let mut rest = buckets;
    let ghost all = rest@;
    let mut i: usize = 0;
    let n = rest.len();
    while rest.len() > 0
        invariant
            i + rest@.len() == n,
            n == all.len(),
            rest@ == all.skip(i as int),
            bucket_indices(kept@) == kept_bucket_indices(all.take(i as int)),
            forall|k: int| 0 <= k < kept@.len() ==> (#[trigger] kept@[k]).peers@.len() > 0,
        decreases rest@.len(),
    {
        let ghost before = kept@;
        let b = rest.remove(0);
        proof {
            assert(b == all[i as int]);
            assert(all.take(i + 1).drop_last() =~= all.take(i as int));
            assert(all.take(i + 1).last() == b);
        }
        if b.peers.len() > 0 {
            kept.push(b);
            assert(bucket_indices(kept@) =~= bucket_indices(before).push(all[i as int].index));
        }
        i = i + 1;
        assert(rest@ =~= all.skip(i as int));
    }
    assert(all.take(n as int) =~= all);
    crate::messages::DhtSnapshot { local_peer_id, buckets: kept, captured_at }
}

/// A result that a node signed with `sign_result` and gossiped with its own public key is
/// taken by every node that receives it.
pub proof fn lemma_signed_gossip_result_accepted(result: CheckResult, keypair: KeyPair, signature: Seq<u8>)
    requires
        keypair.wf(),
        result.signature matches Some(s) && s@ == signature,
        signature == ed25519_signature_of(keypair.secret_spec(), check_result_message(result)),
        signature.len() == 64,
        ed25519_signature_verifies(keypair.public_spec(), check_result_message(result), signature),
    ensures
        gossip_result_accepted(result, keypair.public_spec()),
{
    keypair.lemma_wf_facts();
}

} // verus!
