//! Remote claims have bounded, signed receipts, separate from the permanent operator ledger.
//!
//! Storing a peer's result is decided in two steps: the result's fields must fit their
//! budgets and its timestamp must lie near the local clock; then, once the store has been
//! asked whether the monitor is subscribed here, whether the claim repeats an earlier one
//! and whether it comes sooner than the monitor's interval, the outcome follows.
use vstd::prelude::*;
use crate::audit::opt_view;
use crate::models::PeerResult;

verus! {

/// What became of a result offered for storage.
#[derive(Debug, Clone, Copy, PartialEq, Eq, Structural)]
pub enum SaveOutcome {
    Inserted,
    Duplicate,
    Rejected,
}

/// The most receipts kept in all.
pub const MAX_RESULTS: usize = 20_000;

/// The most receipts kept from one peer.
pub const MAX_PER_PEER: usize = 1_000;

/// How long a stored receipt is kept: seven days, in seconds.
pub const RETENTION_SECONDS: i64 = 604_800;

/// The length of a text in UTF-8 bytes.
pub open spec fn utf8_len(s: Seq<char>) -> nat {
    vstd::utf8::encode_utf8(s).len()
}

/// An absent text, or one of at most `limit` bytes.
pub open spec fn opt_within(o: Option<Seq<char>>, limit: nat) -> bool {
    match o {
        Some(s) => utf8_len(s) <= limit,
        None => true,
    }
}

/// The result was verified, its signature has 64 bytes and its peer id 64 bytes; the
/// target has at most 2048 bytes, the receipt between 1 and 8192, the error message at
/// most 512 and each place name and the source peer id at most 128.
pub open spec fn within_field_budgets(r: PeerResult, target: Seq<char>, receipt: Seq<char>) -> bool {
    &&& r.verified
    &&& r.signature@.len() == 64
    &&& utf8_len(r.peer_id@) == 64
    &&& utf8_len(target) <= 2048
    &&& 1 <= utf8_len(receipt) <= 8192
    &&& opt_within(opt_view(r.error_message), 512)
    &&& opt_within(opt_view(r.city), 128)
    &&& opt_within(opt_view(r.country), 128)
    &&& opt_within(opt_view(r.region), 128)
    &&& opt_within(opt_view(r.source_peer_id), 128)
}

/// A timestamp no more than five minutes behind `now` and no more than 30 s ahead of it.
pub open spec fn within_clock_window(timestamp: int, now: int) -> bool {
    now - 300 <= timestamp <= now + 30
}

/// The signed 64-bit timestamp a result is stored under: its seconds, wrapped into the
/// `i64` range as `as i64` does.
pub open spec fn stored_timestamp(seconds: u64) -> int {
    if seconds <= i64::MAX {
        seconds as int
    } else {
        seconds - 0x1_0000_0000_0000_0000
    }
}

/// The result may be looked up in the store at all.
pub open spec fn admissible(r: PeerResult, target: Seq<char>, receipt: Seq<char>, now: int) -> bool {
    within_field_budgets(r, target, receipt) && within_clock_window(stored_timestamp(r.timestamp), now)
}

/// The outcome once the store has answered: a monitor that is not subscribed here rejects
/// the result; a claim already stored (same peer, monitor and timestamp) is a duplicate; a
/// claim sooner than the monitor's interval after the peer's last one is rejected; any
/// other is inserted.
pub open spec fn lookup_outcome(subscribed: bool, duplicate: bool, too_soon: bool) -> SaveOutcome {
    if !subscribed {
        SaveOutcome::Rejected
    } else if duplicate {
        SaveOutcome::Duplicate
    } else if too_soon {
        SaveOutcome::Rejected
    } else {
        SaveOutcome::Inserted
    }
}

/// Whether an optional text has at most `limit` bytes.
fn opt_fits(o: &Option<String>, limit: usize) -> (r: bool)
    ensures
        r == opt_within(opt_view(*o), limit as nat),
{
    match o {
        Some(s) => s.as_str().as_bytes().len() <= limit,
        None => true,
    }
}

/// Checks a result before the store is asked about it. Returns the timestamp to store it
/// under when the fields fit their budgets and the timestamp lies within the clock window
/// around `now`; `None` means the result is rejected.
pub fn precheck(result: &PeerResult, target: &str, receipt: &str, now: i64) -> (r: Option<i64>)
    ensures
        r is Some <==> admissible(*result, target@, receipt@, now as int),
        r matches Some(t) ==> t == stored_timestamp(result.timestamp),
{
    let receipt_len = receipt.as_bytes().len();
    if !result.verified || result.signature.len() != 64 || result.peer_id.as_str().as_bytes().len() != 64
        || target.as_bytes().len() > 2048 || receipt_len > 8192 || receipt_len == 0 || !opt_fits(&result.error_message, 512) || !opt_fits(
        &result.city,
        128,
    ) || !opt_fits(&result.country, 128) || !opt_fits(&result.region, 128) || !opt_fits(
        &result.source_peer_id,
        128,
    ) {
        return None;
    }
    let stored: i64 = if result.timestamp <= 0x7fff_ffff_ffff_ffff {
        result.timestamp as i64
    } else {
        ((result.timestamp - 0x8000_0000_0000_0000) as i64) + i64::MIN
    };
    let t: i128 = stored as i128;
    let n: i128 = now as i128;
    if t < n - 300 || t > n + 30 {
        return None;
    }
    Some(stored)
}

/// The outcome of a save once the store has said whether the monitor is subscribed here,
/// whether the claim is already stored and whether it comes too soon.
pub fn outcome_after_lookup(subscribed: bool, duplicate: bool, too_soon: bool) -> (r: SaveOutcome)
    ensures
        r == lookup_outcome(subscribed, duplicate, too_soon),
{
    if !subscribed {
        SaveOutcome::Rejected
    } else if duplicate {
        SaveOutcome::Duplicate
    } else if too_soon {
        SaveOutcome::Rejected
    } else {
        SaveOutcome::Inserted
    }
}

/// When a receipt stored at `now` is to be deleted.
pub fn retention_deadline(now: i64) -> (r: i64)
    requires
        now <= i64::MAX - RETENTION_SECONDS,
    ensures
        r == now + RETENTION_SECONDS,
{
    now + RETENTION_SECONDS
}

/// A result is only ever inserted when it was admitted and the store found its monitor
/// subscribed here, found no earlier copy and found it not too soon; every other path
/// ends in `Rejected` or `Duplicate`.
pub proof fn lemma_inserted_only_when_fresh(subscribed: bool, duplicate: bool, too_soon: bool)
    ensures
        lookup_outcome(subscribed, duplicate, too_soon) == SaveOutcome::Inserted <==> (subscribed && !duplicate
            && !too_soon),
        lookup_outcome(subscribed, duplicate, too_soon) == SaveOutcome::Duplicate <==> (subscribed && duplicate),
{
}

} // verus!
