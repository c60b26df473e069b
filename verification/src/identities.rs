//! Expiring LRU cache mapping transport identities to application identities.
//!
//! Churn can evict an idle mapping, never permanently close admission: an insertion always
//! makes its own mapping present, and the cache never grows beyond its capacity.
use vstd::prelude::*;
use crate::text::str_equal;

verus! {

/// How long (seconds) a mapping stays usable after it was last seen.
pub const IDENTITY_TTL_SECS: u64 = 300;

/// One mapping: transport id, application id, and when it was last seen (seconds).
pub type EntryView = (Seq<char>, Seq<char>, u64);

/// A cached mapping.
#[derive(Debug)]
pub struct IdentityEntry {
    pub transport: String,
    pub application: String,
    pub seen: u64,
}

/// Whether a mapping last seen at `seen` is still fresh at `now`.
pub open spec fn fresh(seen: u64, now: u64) -> bool {
    (if now >= seen { now - seen } else { 0 }) < IDENTITY_TTL_SECS
}

/// The mappings of `s` that are fresh at `now`, in order.
pub open spec fn fresh_entries(s: Seq<EntryView>, now: u64) -> Seq<EntryView>
    decreases s.len(),
{
    if s.len() == 0 {
        seq![]
    } else {
        let rest = fresh_entries(s.drop_last(), now);
        if fresh(s.last().2, now) {
            rest.push(s.last())
        } else {
            rest
        }
    }
}

/// Whether some mapping in `s` is for transport `t`.
pub open spec fn has_transport(s: Seq<EntryView>, t: Seq<char>) -> bool {
    exists|i: int| 0 <= i < s.len() && #[trigger] s[i].0 == t
}

/// The index of the first mapping of `s[..n]` with the least `seen` time.
pub open spec fn oldest_index(s: Seq<EntryView>, n: int) -> int
    decreases n,
{
    if n <= 1 {
        0
    } else {
        let prev = oldest_index(s, n - 1);
        if s[n - 1].2 < s[prev].2 {
            n - 1
        } else {
            prev
        }
    }
}

/// Sets the mapping of transport `t` (replacing it in place, or appending it).
pub open spec fn upsert(s: Seq<EntryView>, e: EntryView) -> Seq<EntryView> {
    if has_transport(s, e.0) {
        let i = choose|i: int| 0 <= i < s.len() && s[i].0 == e.0;
        s.update(i, e)
    } else {
        s.push(e)
    }
}

/// The mappings after inserting `e` at time `e.2` into a cache of `capacity` holding `s`:
/// stale mappings are dropped; with no capacity nothing is stored; a new transport in a full
/// cache evicts the least recently seen mapping first.
pub open spec fn inserted(s: Seq<EntryView>, e: EntryView, capacity: nat) -> Seq<EntryView> {
    let k = fresh_entries(s, e.2);
    if capacity == 0 {
        k
    } else if !has_transport(k, e.0) && k.len() >= capacity && k.len() > 0 {
        upsert(k.remove(oldest_index(k, k.len() as int)), e)
    } else {
        upsert(k, e)
    }
}

/// The plain view of stored entries.
pub open spec fn entries_view(v: Seq<IdentityEntry>) -> Seq<EntryView> {
    v.map_values(|e: IdentityEntry| (e.transport@, e.application@, e.seen))
}

/// No transport occurs twice.
pub open spec fn distinct_transports(s: Seq<EntryView>) -> bool {
    forall|i: int, j: int| 0 <= i < j < s.len() ==> s[i].0 != s[j].0
}

proof fn lemma_fresh_entries_props(s: Seq<EntryView>, now: u64)
    ensures
        fresh_entries(s, now).len() <= s.len(),
        forall|t: Seq<char>| #[trigger] has_transport(fresh_entries(s, now), t) ==> has_transport(s, t),
        distinct_transports(s) ==> distinct_transports(fresh_entries(s, now)),
        forall|i: int| 0 <= i < fresh_entries(s, now).len() ==> fresh(#[trigger] fresh_entries(s, now)[i].2, now),
    decreases s.len(),
{
    if s.len() > 0 {
        let p = s.drop_last();
        lemma_fresh_entries_props(p, now);
        let rest = fresh_entries(p, now);
        assert forall|t: Seq<char>| has_transport(fresh_entries(s, now), t) implies has_transport(s, t) by {
            let f = fresh_entries(s, now);
            let i = choose|i: int| 0 <= i < f.len() && #[trigger] f[i].0 == t;
            if i < rest.len() {
                assert(rest[i].0 == t);
                assert(has_transport(rest, t));
                assert(has_transport(p, t));
                let j = choose|j: int| 0 <= j < p.len() && #[trigger] p[j].0 == t;
                assert(p[j] == s[j]);
                assert(s[j].0 == t);
            } else {
                assert(s[s.len() - 1].0 == t);
            }
        }
        if distinct_transports(s) {
            assert(distinct_transports(p));
            if fresh(s.last().2, now) {
                assert forall|i: int, j: int| 0 <= i < j < rest.push(s.last()).len() implies rest.push(s.last())[i].0
                    != rest.push(s.last())[j].0 by {
                    if j == rest.len() {
                        if rest[i].0 == s.last().0 {
                            assert(has_transport(rest, s.last().0));
                            assert(has_transport(p, s.last().0));
                            let m = choose|m: int| 0 <= m < p.len() && #[trigger] p[m].0 == s.last().0;
                            assert(p[m] == s[m]);
                            assert(s[m].0 == s[s.len() - 1].0);
                        }
                    }
                }
            }
        }
    }
}

proof fn lemma_upsert_props(s: Seq<EntryView>, e: EntryView)
    requires
        distinct_transports(s),
    ensures
        distinct_transports(upsert(s, e)),
        has_transport(s, e.0) ==> upsert(s, e).len() == s.len(),
        !has_transport(s, e.0) ==> upsert(s, e).len() == s.len() + 1,
        has_transport(upsert(s, e), e.0),
        exists|i: int| 0 <= i < upsert(s, e).len() && #[trigger] upsert(s, e)[i] == e,
{
    if has_transport(s, e.0) {
        let i = choose|i: int| 0 <= i < s.len() && s[i].0 == e.0;
        let u = s.update(i, e);
        assert(u[i].0 == e.0);
        assert(u[i] == e);
        assert forall|a: int, b: int| 0 <= a < b < u.len() implies u[a].0 != u[b].0 by {
            if a == i {
                assert(s[b].0 != s[i].0);
            } else if b == i {
                assert(s[a].0 != s[i].0);
            }
        }
    } else {
        let u = s.push(e);
        assert(u[s.len() as int].0 == e.0);
        assert(u[s.len() as int] == e);
        assert forall|a: int, b: int| 0 <= a < b < u.len() implies u[a].0 != u[b].0 by {
            if b == s.len() {
                if s[a].0 == e.0 {
                    assert(has_transport(s, e.0));
                }
            }
        }
    }
}

proof fn lemma_oldest_index_range(s: Seq<EntryView>, n: int)
    requires
        1 <= n <= s.len(),
    ensures
        0 <= oldest_index(s, n) < n,
        forall|j: int| 0 <= j < n ==> s[oldest_index(s, n)].2 <= #[trigger] s[j].2,
    decreases n,
{
    if n > 1 {
        lemma_oldest_index_range(s, n - 1);
    }
}

proof fn lemma_remove_distinct(s: Seq<EntryView>, i: int)
    requires
        distinct_transports(s),
        0 <= i < s.len(),
    ensures
        distinct_transports(s.remove(i)),
        forall|t: Seq<char>| has_transport(s.remove(i), t) ==> has_transport(s, t),
{
    let r = s.remove(i);
    assert forall|a: int, b: int| 0 <= a < b < r.len() implies r[a].0 != r[b].0 by {
        let a2 = if a < i { a } else { a + 1 };
        let b2 = if b < i { b } else { b + 1 };
        assert(r[a] == s[a2] && r[b] == s[b2]);
    }
    assert forall|t: Seq<char>| has_transport(r, t) implies has_transport(s, t) by {
        let a = choose|a: int| 0 <= a < r.len() && #[trigger] r[a].0 == t;
        let a2 = if a < i { a } else { a + 1 };
        assert(s[a2].0 == t);
    }
}

/// Churn never closes admission: in a cache with room for at least one mapping, the mapping
/// just inserted is present, with its application and the time of insertion, and the cache
/// still holds at most `capacity` mappings with distinct transports.
pub proof fn lemma_insert_admits(s: Seq<EntryView>, e: EntryView, capacity: nat)
    requires
        distinct_transports(s),
        s.len() <= capacity,
        capacity > 0,
    ensures
        exists|i: int| 0 <= i < inserted(s, e, capacity).len() && #[trigger] inserted(s, e, capacity)[i] == e,
        distinct_transports(inserted(s, e, capacity)),
        inserted(s, e, capacity).len() <= capacity,
{
    let k = fresh_entries(s, e.2);
    lemma_fresh_entries_props(s, e.2);
    if !has_transport(k, e.0) && k.len() >= capacity && k.len() > 0 {
        lemma_oldest_index_range(k, k.len() as int);
        let k2 = k.remove(oldest_index(k, k.len() as int));
        lemma_remove_distinct(k, oldest_index(k, k.len() as int));
        if has_transport(k2, e.0) {
            assert(has_transport(k, e.0));
        }
        lemma_upsert_props(k2, e);
        assert(inserted(s, e, capacity) == upsert(k2, e));
        let w = choose|i: int| 0 <= i < upsert(k2, e).len() && #[trigger] upsert(k2, e)[i] == e;
        assert(inserted(s, e, capacity)[w] == e);
    } else {
        lemma_upsert_props(k, e);
        assert(inserted(s, e, capacity) == upsert(k, e));
        let w = choose|i: int| 0 <= i < upsert(k, e).len() && #[trigger] upsert(k, e)[i] == e;
        assert(inserted(s, e, capacity)[w] == e);
    }
}

/// Expiring LRU cache. Churn can evict an idle mapping, never permanently close admission.
#[derive(Debug)]
pub struct Identities {
    entries: Vec<IdentityEntry>,
    capacity: usize,
}

impl Identities {
    /// The mappings, in storage order.
    pub closed spec fn view_entries(&self) -> Seq<EntryView> {
        entries_view(self.entries@)
    }

    /// The capacity the cache was made with.
    pub closed spec fn capacity_spec(&self) -> nat {
        self.capacity as nat
    }

    /// The cache invariant: distinct transports and at most `capacity` mappings.
    pub open spec fn wf(&self) -> bool {
        &&& distinct_transports(self.view_entries())
        &&& self.view_entries().len() <= self.capacity_spec()
    }

    /// An empty cache holding at most `capacity` mappings.
    pub fn new(capacity: usize) -> (r: Identities)
        ensures
            r.wf(),
            r.view_entries().len() == 0,
            r.capacity_spec() == capacity,
    {
        let r = Identities { entries: Vec::new(), capacity };
        assert(r.view_entries() =~= seq![]);
        r
    }

    /// A copy of the entry at `i`.
    fn copy_entry(&self, i: usize) -> (r: IdentityEntry)
        requires
            i < self.entries@.len(),
        ensures
            (r.transport@, r.application@, r.seen) == self.view_entries()[i as int],
    {
        let e = &self.entries[i];
        IdentityEntry { transport: e.transport.clone(), application: e.application.clone(), seen: e.seen }
    }

    /// The index of the mapping for `transport`, if any.
    fn index_of(entries: &Vec<IdentityEntry>, transport: &str) -> (r: Option<usize>)
        ensures
            r matches Some(i) ==> i < entries@.len() && entries@[i as int].transport@ == transport@,
            r is None ==> forall|j: int| 0 <= j < entries@.len() ==> entries@[j].transport@ != transport@,
    {
        let mut i: usize = 0;
        while i < entries.len()
            invariant
                i <= entries@.len(),
                forall|j: int| 0 <= j < i ==> entries@[j].transport@ != transport@,
            decreases entries@.len() - i,
        {
            if str_equal(entries[i].transport.as_str(), transport) {
                return Some(i);
            }
            i = i + 1;
        }
        None
    }

    /// Maps `transport` to `application`, seen at `now`.
    pub fn insert(&mut self, transport: String, application: String, now: u64)
        requires
            old(self).wf(),
        ensures
            final(self).wf(),
            final(self).capacity_spec() == old(self).capacity_spec(),
            final(self).view_entries() == inserted(
                old(self).view_entries(),
                (transport@, application@, now),
                old(self).capacity_spec(),
            ),
    {
        let ghost old_view = self.view_entries();
        let ghost e: EntryView = (transport@, application@, now);
        // Drop stale mappings.
        let mut kept: Vec<IdentityEntry> = Vec::new();
        let mut i: usize = 0;
        while i < self.entries.len()
            invariant
                i <= self.entries@.len(),
                self.view_entries() == old_view,
                entries_view(kept@)
                    == fresh_entries(old_view.take(i as int), now),
            decreases self.entries@.len() - i,
        {
            assert(old_view.take(i + 1).drop_last() =~= old_view.take(i as int));
            let seen = self.entries[i].seen;
            let age = if now >= seen { now - seen } else { 0 };
            if age < IDENTITY_TTL_SECS {
                let c = self.copy_entry(i);
                kept.push(c);
                assert(entries_view(kept@)
                    =~= fresh_entries(old_view.take(i as int), now).push(old_view[i as int]));
            }
            i = i + 1;
        }
        assert(old_view.take(old_view.len() as int) =~= old_view);
        let ghost k = fresh_entries(old_view, now);
        proof {
            lemma_fresh_entries_props(old_view, now);
        }
        if self.capacity == 0 {
            self.entries = kept;
            return;
        }
        let found = Identities::index_of(&kept, transport.as_str());
        proof {
            if found is None && has_transport(k, transport@) {
                let j = choose|j: int| 0 <= j < k.len() && #[trigger] k[j].0 == transport@;
                assert(kept@[j].transport@ == transport@);
            }
            match found {
                Some(j) => {
                    assert(k[j as int].0 == transport@);
                },
                None => {},
            }
        }
        proof {
            if k.len() > 0 {
                lemma_oldest_index_range(k, k.len() as int);
            }
        }
        let ghost k2 = if !has_transport(k, e.0) && k.len() >= self.capacity && k.len() > 0 {
            k.remove(oldest_index(k, k.len() as int))
        } else {
            k
        };
        if found.is_none() && kept.len() >= self.capacity && kept.len() > 0 {
            let mut j: usize = 0;
            let mut m: usize = 1;
            while m < kept.len()
                invariant
                    1 <= m <= kept@.len(),
                    entries_view(kept@) == k,
                    j < m,
                    j as int == oldest_index(k, m as int),
                decreases kept@.len() - m,
            {
                assert(kept@[m as int].seen == k[m as int].2 && kept@[j as int].seen == k[j as int].2);
                if kept[m].seen < kept[j].seen {
                    j = m;
                }
                m = m + 1;
            }
            proof {
                lemma_oldest_index_range(k, k.len() as int);
            }
            kept.remove(j);
            assert(entries_view(kept@) =~= k2);
            proof {
                lemma_remove_distinct(k, j as int);
            }
        }
        assert(entries_view(kept@) == k2);
        let ghost k2_len = k2.len();
        let found2 = Identities::index_of(&kept, transport.as_str());
        let entry = IdentityEntry { transport, application, seen: now };
        match found2 {
            Some(j) => {
                proof {
                    assert(k2[j as int].0 == e.0);
                    assert(has_transport(k2, e.0));
                    let c = choose|c: int| 0 <= c < k2.len() && k2[c].0 == e.0;
                    assert(k2[c].0 == k2[j as int].0);
                }
                kept.set(j, entry);
                assert(entries_view(kept@) =~= upsert(k2, e));
            },
            None => {
                proof {
                    if has_transport(k2, e.0) {
                        let c = choose|c: int| 0 <= c < k2.len() && #[trigger] k2[c].0 == e.0;
                        assert(kept@[c].transport@ == e.0);
                    }
                }
                kept.push(entry);
                assert(entries_view(kept@) =~= upsert(k2, e));
            },
        }
        proof {
            lemma_upsert_props(k2, e);
        }
        self.entries = kept;
    }

    /// Whether `transport` maps to `application` and was seen less than five minutes before
    /// `now`; on a match the mapping is marked as seen at `now`.
    pub fn matches(&mut self, transport: &str, application: &str, now: u64) -> (r: bool)
        requires
            old(self).wf(),
        ensures
            final(self).wf(),
            final(self).capacity_spec() == old(self).capacity_spec(),
            r == exists|i: int|
                0 <= i < old(self).view_entries().len() && #[trigger] old(self).view_entries()[i].0
                    == transport@ && old(self).view_entries()[i].1 == application@ && fresh(
                    old(self).view_entries()[i].2,
                    now,
                ),
            r ==> exists|i: int|
                0 <= i < old(self).view_entries().len() && #[trigger] old(self).view_entries()[i].0
                    == transport@ && final(self).view_entries() == old(self).view_entries().update(
                    i,
                    (transport@, application@, now),
                ),
            !r ==> final(self).view_entries() == old(self).view_entries(),
    {
        let found = Identities::index_of(&self.entries, transport);
        let i = match found {
            Some(i) => i,
            None => {
                proof {
                    if exists|i: int|
                        0 <= i < old(self).view_entries().len() && #[trigger] old(self).view_entries()[i].0
                            == transport@ && old(self).view_entries()[i].1 == application@ && fresh(
                            old(self).view_entries()[i].2,
                            now,
                        ) {
                        let c = choose|i: int|
                            0 <= i < old(self).view_entries().len() && #[trigger] old(self).view_entries()[i].0
                                == transport@ && old(self).view_entries()[i].1 == application@ && fresh(
                                old(self).view_entries()[i].2,
                                now,
                            );
                        assert(self.entries@[c].transport@ == transport@);
                    }
                }
                return false;
            },
        };
        let ghost v = self.view_entries();
        let seen = self.entries[i].seen;
        let age = if now >= seen { now - seen } else { 0 };
        if age < IDENTITY_TTL_SECS && str_equal(self.entries[i].application.as_str(), application) {
            let t = self.entries[i].transport.clone();
            let a = self.entries[i].application.clone();
            self.entries.set(i, IdentityEntry { transport: t, application: a, seen: now });
            assert(self.view_entries() =~= v.update(i as int, (transport@, application@, now)));
            proof {
                assert(v[i as int].0 == transport@ && v[i as int].1 == application@);
                assert(fresh(v[i as int].2, now));
                let u = v.update(i as int, (transport@, application@, now));
                assert forall|a2: int, b2: int| 0 <= a2 < b2 < u.len() implies u[a2].0 != u[b2].0 by {
                    assert(u[a2].0 == v[a2].0 && u[b2].0 == v[b2].0);
                }
            }
            return true;
        }
        proof {
            if exists|j: int|
                0 <= j < v.len() && #[trigger] v[j].0 == transport@ && v[j].1 == application@ && fresh(v[j].2, now) {
                let c = choose|j: int|
                    0 <= j < v.len() && #[trigger] v[j].0 == transport@ && v[j].1 == application@ && fresh(v[j].2, now);
                assert(v[c].0 == v[i as int].0);
            }
        }
        false
    }

    /// Forgets the mapping of `transport`.
    pub fn remove(&mut self, transport: &str)
        requires
            old(self).wf(),
        ensures
            final(self).wf(),
            final(self).capacity_spec() == old(self).capacity_spec(),
            has_transport(old(self).view_entries(), transport@) ==> exists|i: int|
                0 <= i < old(self).view_entries().len() && #[trigger] old(self).view_entries()[i].0
                    == transport@ && final(self).view_entries() == old(self).view_entries().remove(i),
            !has_transport(old(self).view_entries(), transport@) ==> final(self).view_entries() == old(
                self,
            ).view_entries(),
            !has_transport(final(self).view_entries(), transport@),
    {
        let ghost v = self.view_entries();
        match Identities::index_of(&self.entries, transport) {
            Some(i) => {
                self.entries.remove(i);
                assert(self.view_entries() =~= v.remove(i as int));
                proof {
                    assert(v[i as int].0 == transport@);
                    lemma_remove_distinct(v, i as int);
                    if has_transport(v.remove(i as int), transport@) {
                        let a = choose|a: int| 0 <= a < v.remove(i as int).len() && #[trigger] v.remove(i as int)[a].0 == transport@;
                        let a2 = if a < i { a } else { a + 1 };
                        assert(v[a2].0 == v[i as int].0);
                    }
                }
            },
            None => {
                proof {
                    if has_transport(v, transport@) {
                        let c = choose|c: int| 0 <= c < v.len() && #[trigger] v[c].0 == transport@;
                        assert(self.entries@[c].transport@ == transport@);
                    }
                }
            },
        }
    }
}

} // verus!
