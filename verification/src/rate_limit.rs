//! Per-owner rate limits on private monitors: at most 10 monitors per owner, and at most 100
//! checks per owner in each hour window.
use vstd::prelude::*;
use crate::clock::utc_timestamp;
use crate::text::str_equal;

verus! {

/// Most private monitors one owner may create.
pub const MAX_MONITORS_PER_OWNER: usize = 10;

/// Most checks one owner's private monitors may make in an hour window.
pub const MAX_CHECKS_PER_HOUR: usize = 100;

/// Length of a check window, in seconds.
pub const HOUR_WINDOW_SECS: i64 = 3600;

/// What is counted for one owner.
#[derive(Debug, Clone, Copy, PartialEq, Eq, Structural)]
pub struct OwnerLimits {
    /// Private monitors created by the owner
    pub monitors_created: usize,
    /// Checks performed in the current hour window
    pub checks_this_hour: usize,
    /// Start of the hour window (Unix seconds)
    pub hour_start: i64,
}

/// The limits of one owner.
#[derive(Debug)]
pub struct OwnerEntry {
    pub owner: String,
    pub limits: OwnerLimits,
}

/// The counters of an owner seen for the first time at `now`.
pub open spec fn initial_limits(now: i64) -> OwnerLimits {
    OwnerLimits { monitors_created: 0, checks_this_hour: 0, hour_start: now }
}

/// Whether some entry of `s` is for `owner`.
pub open spec fn has_owner(s: Seq<(Seq<char>, OwnerLimits)>, owner: Seq<char>) -> bool {
    exists|i: int| 0 <= i < s.len() && #[trigger] s[i].0 == owner
}

/// The counters of `owner` in `s`, if it has any.
pub open spec fn limits_of(s: Seq<(Seq<char>, OwnerLimits)>, owner: Seq<char>) -> Option<OwnerLimits> {
    if has_owner(s, owner) {
        Some(s[choose|i: int| 0 <= i < s.len() && #[trigger] s[i].0 == owner].1)
    } else {
        None
    }
}

/// `s` with the counters of `owner` set to `l` (in place, or appended for a new owner).
pub open spec fn set_limits(s: Seq<(Seq<char>, OwnerLimits)>, owner: Seq<char>, l: OwnerLimits) -> Seq<
    (Seq<char>, OwnerLimits),
> {
    if has_owner(s, owner) {
        s.update(choose|i: int| 0 <= i < s.len() && #[trigger] s[i].0 == owner, (owner, l))
    } else {
        s.push((owner, l))
    }
}

/// No owner occurs twice.
pub open spec fn distinct_owners(s: Seq<(Seq<char>, OwnerLimits)>) -> bool {
    forall|i: int, j: int| 0 <= i < j < s.len() ==> s[i].0 != s[j].0
}

/// The counters of `owner` at `now`, made fresh for an owner not seen before.
pub open spec fn current_limits(s: Seq<(Seq<char>, OwnerLimits)>, owner: Seq<char>, now: i64) -> OwnerLimits {
    match limits_of(s, owner) {
        Some(l) => l,
        None => initial_limits(now),
    }
}

/// The answer of `can_add_monitor` and the owner's counters after it.
pub open spec fn add_monitor_outcome(l: OwnerLimits) -> (bool, OwnerLimits) {
    if l.monitors_created >= 10 {
        (false, l)
    } else {
        (true, OwnerLimits { monitors_created: (l.monitors_created + 1) as usize, ..l })
    }
}

/// The owner's counters at `now` after the hour window is renewed when more than an hour
/// has passed since it started.
pub open spec fn window_at(l: OwnerLimits, now: i64) -> OwnerLimits {
    if now - l.hour_start > 3600 {
        OwnerLimits { checks_this_hour: 0, hour_start: now, ..l }
    } else {
        l
    }
}

/// The answer of `can_check` and the owner's counters after it.
pub open spec fn check_outcome(l: OwnerLimits, now: i64) -> (bool, OwnerLimits) {
    let w = window_at(l, now);
    if w.checks_this_hour >= 100 {
        (false, w)
    } else {
        (true, OwnerLimits { checks_this_hour: (w.checks_this_hour + 1) as usize, ..w })
    }
}

/// Rate limiting for private monitors to prevent abuse.
#[derive(Debug)]
pub struct PrivateMonitorRateLimiter {
    /// Limits per owner peer
    limits: Vec<OwnerEntry>,
}

impl PrivateMonitorRateLimiter {
    /// The counters, per owner, in storage order.
    pub closed spec fn view_limits(&self) -> Seq<(Seq<char>, OwnerLimits)> {
        self.limits@.map_values(|e: OwnerEntry| (e.owner@, e.limits))
    }

    /// The limiter invariant: each owner has at most one entry, and counters stay within
    /// their limits.
    pub open spec fn wf(&self) -> bool {
        &&& distinct_owners(self.view_limits())
        &&& forall|i: int|
            0 <= i < self.view_limits().len() ==> (#[trigger] self.view_limits()[i]).1.monitors_created
                <= 10 && self.view_limits()[i].1.checks_this_hour <= 100
    }

    /// A limiter that has seen no owner.
    pub fn new() -> (r: PrivateMonitorRateLimiter)
        ensures
            r.wf(),
            r.view_limits().len() == 0,
    {
        let r = PrivateMonitorRateLimiter { limits: Vec::new() };
        assert(r.view_limits() =~= seq![]);
        r
    }

    /// The index of the entry for `owner`, if any.
    fn index_of(&self, owner: &str) -> (r: Option<usize>)
        ensures
            r matches Some(i) ==> i < self.view_limits().len() && self.view_limits()[i as int].0 == owner@,
            r is None ==> !has_owner(self.view_limits(), owner@),
    {
        let mut i: usize = 0;
        while i < self.limits.len()
            invariant
                i <= self.limits@.len(),
                forall|j: int| 0 <= j < i ==> self.view_limits()[j].0 != owner@,
            decreases self.limits@.len() - i,
        {
            if str_equal(self.limits[i].owner.as_str(), owner) {
                return Some(i);
            }
            i = i + 1;
        }
        proof {
            if has_owner(self.view_limits(), owner@) {
                let c = choose|c: int| 0 <= c < self.view_limits().len() && #[trigger] self.view_limits()[c].0 == owner@;
                assert(self.view_limits()[c].0 != owner@);
            }
        }
        None
    }

    /// The counters of `owner` at `now` and where they are stored.
    fn current(&self, owner: &str, now: i64) -> (r: (Option<usize>, OwnerLimits))
        requires
            self.wf(),
        ensures
            r.1 == current_limits(self.view_limits(), owner@, now),
            r.0 matches Some(i) ==> i < self.view_limits().len() && self.view_limits()[i as int].0 == owner@,
            r.0 is None ==> !has_owner(self.view_limits(), owner@),
            r.1.monitors_created <= 10 && r.1.checks_this_hour <= 100,
    {
        match self.index_of(owner) {
            Some(i) => {
                proof {
                    let v = self.view_limits();
                    assert(has_owner(v, owner@));
                    let c = choose|c: int| 0 <= c < v.len() && #[trigger] v[c].0 == owner@;
                    assert(v[c].0 == v[i as int].0);
                    assert(c == i);
                    assert(v[i as int].1.monitors_created <= 10 && v[i as int].1.checks_this_hour <= 100);
                }
                (Some(i), self.limits[i].limits)
            },
            None => (None, OwnerLimits { monitors_created: 0, checks_this_hour: 0, hour_start: now }),
        }
    }

    /// Stores the counters `l` of `owner`, found at `at`.
    fn store(&mut self, at: Option<usize>, owner: &str, l: OwnerLimits)
        requires
            old(self).wf(),
            at matches Some(i) ==> i < old(self).view_limits().len() && old(self).view_limits()[i as int].0 == owner@,
            at is None ==> !has_owner(old(self).view_limits(), owner@),
            l.monitors_created <= 10,
            l.checks_this_hour <= 100,
        ensures
            final(self).wf(),
            final(self).view_limits() == set_limits(old(self).view_limits(), owner@, l),
    {
        let ghost v = self.view_limits();
        match at {
            Some(i) => {
                let o = self.limits[i].owner.clone();
                self.limits.set(i, OwnerEntry { owner: o, limits: l });
                proof {
                    assert(has_owner(v, owner@));
                    let c = choose|c: int| 0 <= c < v.len() && #[trigger] v[c].0 == owner@;
                    assert(v[c].0 == v[i as int].0);
                    assert(c == i);
                }
                assert(self.view_limits() =~= v.update(i as int, (owner@, l)));
            },
            None => {
                self.limits.push(OwnerEntry { owner: owner.to_owned(), limits: l });
                assert(self.view_limits() =~= v.push((owner@, l)));
            },
        }
        proof {
            let u = self.view_limits();
            assert forall|a: int, b: int| 0 <= a < b < u.len() implies u[a].0 != u[b].0 by {
                if at is None && b == v.len() {
                    if v[a].0 == owner@ {
                        assert(has_owner(v, owner@));
                    }
                }
            }
            assert forall|a: int| 0 <= a < u.len() implies (#[trigger] u[a]).1.monitors_created <= 10
                && u[a].1.checks_this_hour <= 100 by {
                if a < v.len() && u[a] != (owner@, l) {
                    assert(u[a] == v[a]);
                }
            }
        }
    }

    /// Whether `owner_peer_id` may create another private monitor at `now` (at most 10 per
    /// owner); a yes counts the new monitor. An owner not seen before is recorded either way.
    pub fn can_add_monitor_at(&mut self, owner_peer_id: &str, now: i64) -> (r: bool)
        requires
            old(self).wf(),
        ensures
            final(self).wf(),
            r == add_monitor_outcome(current_limits(old(self).view_limits(), owner_peer_id@, now)).0,
            final(self).view_limits() == set_limits(
                old(self).view_limits(),
                owner_peer_id@,
                add_monitor_outcome(current_limits(old(self).view_limits(), owner_peer_id@, now)).1,
            ),
    {
        let (at, l) = self.current(owner_peer_id, now);
        if l.monitors_created >= MAX_MONITORS_PER_OWNER {
            self.store(at, owner_peer_id, l);
            return false;
        }
        let next = OwnerLimits { monitors_created: l.monitors_created + 1, ..l };
        self.store(at, owner_peer_id, next);
        true
    }

    /// Check if owner can create another private monitor, at the current time.
    pub fn can_add_monitor(&mut self, owner_peer_id: &str) -> (r: bool)
        requires
            old(self).wf(),
        ensures
            final(self).wf(),
            exists|now: i64|
                r == add_monitor_outcome(current_limits(old(self).view_limits(), owner_peer_id@, now)).0
                    && #[trigger] final(self).view_limits() == set_limits(
                    old(self).view_limits(),
                    owner_peer_id@,
                    add_monitor_outcome(current_limits(old(self).view_limits(), owner_peer_id@, now)).1,
                ),
    {
        let now = utc_timestamp();
        self.can_add_monitor_at(owner_peer_id, now)
    }

    /// Whether a private monitor of `owner_peer_id` may perform a check at `now`: the hour
    /// window is renewed when more than an hour has passed since it began, and at most 100
    /// checks are allowed in it; a yes counts the check.
    pub fn can_check_at(&mut self, owner_peer_id: &str, now: i64) -> (r: bool)
        requires
            old(self).wf(),
        ensures
            final(self).wf(),
            r == check_outcome(current_limits(old(self).view_limits(), owner_peer_id@, now), now).0,
            final(self).view_limits() == set_limits(
                old(self).view_limits(),
                owner_peer_id@,
                check_outcome(current_limits(old(self).view_limits(), owner_peer_id@, now), now).1,
            ),
    {
        let (at, l) = self.current(owner_peer_id, now);
        let elapsed: i128 = (now as i128) - (l.hour_start as i128);
        let w = if elapsed > HOUR_WINDOW_SECS as i128 {
            OwnerLimits { checks_this_hour: 0, hour_start: now, ..l }
        } else {
            l
        };
        if w.checks_this_hour >= MAX_CHECKS_PER_HOUR {
            self.store(at, owner_peer_id, w);
            return false;
        }
        let next = OwnerLimits { checks_this_hour: w.checks_this_hour + 1, ..w };
        self.store(at, owner_peer_id, next);
        true
    }

    /// Check if a monitor can perform a check (rate limiting), at the current time.
    pub fn can_check(&mut self, owner_peer_id: &str) -> (r: bool)
        requires
            old(self).wf(),
        ensures
            final(self).wf(),
            exists|now: i64|
                r == check_outcome(current_limits(old(self).view_limits(), owner_peer_id@, now), now).0
                    && #[trigger] final(self).view_limits() == set_limits(
                    old(self).view_limits(),
                    owner_peer_id@,
                    check_outcome(current_limits(old(self).view_limits(), owner_peer_id@, now), now).1,
                ),
    {
        let now = utc_timestamp();
        self.can_check_at(owner_peer_id, now)
    }
}

impl Default for PrivateMonitorRateLimiter {
    fn default() -> (r: PrivateMonitorRateLimiter)
        ensures
            r.wf(),
            r.view_limits().len() == 0,
    {
        PrivateMonitorRateLimiter::new()
    }
}

} // verus!
