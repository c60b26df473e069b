//! Messages exchanged between peers: result queries, sync notices, helper assignments and
//! routing-table snapshots.
use vstd::prelude::*;
use crate::models::CheckResult;

verus! {

/// Request to query results from a peer.
#[derive(Debug)]
pub struct ResultsQueryRequest {
    /// Query results since this timestamp (Unix seconds)
    pub since_timestamp: u64,
    /// Optional: limit results to a specific monitor UUID
    pub monitor_uuid: Option<String>,
    /// Maximum number of results to return
    pub limit: usize,
}

/// A monitoring result in query response format.
#[derive(Debug)]
pub struct QueryResult {
    pub monitor_uuid: String,
    pub timestamp: u64,
    pub status: String,
    pub latency_ms: Option<u64>,
    pub error_message: Option<String>,
    pub peer_id: String,
    pub signature: Vec<u8>,
    pub public_key: Vec<u8>,
}

/// Response containing monitoring results.
#[derive(Debug)]
pub struct ResultsQueryResponse {
    /// Monitoring results matching the query
    pub results: Vec<QueryResult>,
    /// Whether there are more results available
    pub has_more: bool,
}

/// Notification that a peer has synced our results.
#[derive(Debug)]
pub struct SyncCompletionNotification {
    /// Peer that synced the data
    pub syncing_peer_id: String,
    /// Results synced up to this timestamp (Unix seconds)
    pub synced_until_timestamp: u64,
    /// Results from which monitors (empty = all)
    pub monitor_uuids: Vec<String>,
}

/// Request for a peer to help monitor a private service.
#[derive(Debug)]
pub struct HelperAssignmentRequest {
    /// Monitor UUID
    pub monitor_uuid: String,
    /// Target URL to monitor
    pub target: String,
    /// Check type (http, https, tcp, icmp)
    pub check_type: String,
    /// Check interval in seconds
    pub interval_seconds: u64,
    /// Timeout in seconds
    pub timeout_seconds: u64,
    /// Owner's peer ID
    pub owner_peer_id: String,
    /// Owner's X25519 public key (for encrypting results)
    pub owner_public_key: [u8; 32],
    /// Target helper peer ID (who should receive this assignment)
    pub helper_peer_id: String,
    /// When this assignment was created
    pub assigned_at: i64,
}

/// Response to a helper assignment request.
#[derive(Debug)]
pub enum HelperAssignmentResponse {
    /// Helper accepted the assignment
    Accepted { monitor_uuid: String, helper_peer_id: String },
    /// Helper rejected (rate limited, too many assignments, etc.)
    Rejected { monitor_uuid: String, reason: String },
}

/// One entry of a routing-table bucket.
#[derive(Debug)]
pub struct DhtPeerEntry {
    /// Peer id
    pub peer_id: String,
    /// Known addresses (if available)
    pub addrs: Vec<String>,
    /// State info if available (e.g., Connected/Disconnected)
    pub state: Option<String>,
}

/// One routing-table bucket.
#[derive(Debug)]
pub struct DhtBucket {
    /// Bucket index / distance
    pub index: usize,
    /// Entries in this bucket
    pub peers: Vec<DhtPeerEntry>,
}

/// Snapshot of the DHT routing table.
#[derive(Debug)]
pub struct DhtSnapshot {
    /// Local peer id
    pub local_peer_id: String,
    /// Buckets indexed by distance
    pub buckets: Vec<DhtBucket>,
    /// When the snapshot was created (Unix seconds)
    pub captured_at: i64,
}

/// A monitoring result received from a peer over gossip.
#[derive(Debug)]
pub struct PeerResult {
    /// The monitoring result
    pub result: CheckResult,
    /// Signature of the result (for verification)
    pub signature: Option<Vec<u8>>,
    /// Public key of the peer that sent this result (for verification)
    pub public_key: Option<Vec<u8>>,
    /// Peer ID that sent this result
    pub peer_id: String,
    /// When it was received (Unix seconds)
    pub received_at: u64,
}

} // verus!
