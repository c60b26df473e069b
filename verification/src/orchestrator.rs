//! Decisions of the node's main loop: peer bookkeeping, re-dial backoff, display-name
//! consensus for public monitors, which helper requests to accept, which received results
//! to keep, and which monitor tasks to stop and start when monitors are reloaded.
//! Times are whole seconds.
use vstd::prelude::*;
use crate::text::{list_contains, list_position, str_equal, views};

verus! {

/// Most peers remembered as seen, before the record starts over.
pub const MAX_SEEN_PEERS: usize = 4096;

/// Most peers remembered as running this service.
pub const MAX_SERVICE_PEERS: usize = 1024;

/// `s` with `p` added at the end unless it is there.
pub open spec fn with_peer(s: Seq<Seq<char>>, p: Seq<char>) -> Seq<Seq<char>> {
    if s.contains(p) {
        s
    } else {
        s.push(p)
    }
}

/// `s` without `p`.
pub open spec fn without_peer(s: Seq<Seq<char>>, p: Seq<char>) -> Seq<Seq<char>> {
    if s.contains(p) {
        s.remove(s.index_of(p))
    } else {
        s
    }
}

/// The peers of `s` that are in `keep`, in order.
pub open spec fn kept_in(s: Seq<Seq<char>>, keep: Seq<Seq<char>>) -> Seq<Seq<char>>
    decreases s.len(),
{
    if s.len() == 0 {
        s
    } else if keep.contains(s.last()) {
        kept_in(s.drop_last(), keep).push(s.last())
    } else {
        kept_in(s.drop_last(), keep)
    }
}

/// The service peers after `p` announces itself (when it is new): at capacity, peers no
/// longer connected are forgotten first; `p` is added if there is then room.
pub open spec fn announced(service: Seq<Seq<char>>, connected: Seq<Seq<char>>, p: Seq<char>) -> Seq<Seq<char>> {
    if service.contains(p) {
        service
    } else {
        let s1 = if service.len() >= 1024 { kept_in(service, connected) } else { service };
        if s1.len() < 1024 {
            s1.push(p)
        } else {
            s1
        }
    }
}

proof fn lemma_remove_no_duplicates(s: Seq<Seq<char>>, p: Seq<char>)
    requires
        s.no_duplicates(),
    ensures
        without_peer(s, p).no_duplicates(),
        !without_peer(s, p).contains(p),
        forall|q: Seq<char>| q != p ==> (without_peer(s, p).contains(q) <==> s.contains(q)),
{
    if s.contains(p) {
        let i = s.index_of(p);
        let r = s.remove(i);
        assert forall|a: int, b: int| 0 <= a < r.len() && 0 <= b < r.len() && a != b implies r[a] != r[b] by {
            let a2 = if a < i { a } else { a + 1 };
            let b2 = if b < i { b } else { b + 1 };
            assert(r[a] == s[a2] && r[b] == s[b2]);
        }
        if r.contains(p) {
            let a = choose|a: int| 0 <= a < r.len() && r[a] == p;
            let a2 = if a < i { a } else { a + 1 };
            assert(r[a] == s[a2]);
        }
        assert forall|q: Seq<char>| q != p implies (r.contains(q) <==> s.contains(q)) by {
            if r.contains(q) {
                let a = choose|a: int| 0 <= a < r.len() && r[a] == q;
                let a2 = if a < i { a } else { a + 1 };
                assert(r[a] == s[a2]);
            }
            if s.contains(q) {
                let a = choose|a: int| 0 <= a < s.len() && s[a] == q;
                if a < i {
                    assert(r[a] == q);
                } else {
                    assert(a != i);
                    assert(r[a - 1] == q);
                }
            }
        }
    }
}

proof fn lemma_add_no_duplicates(s: Seq<Seq<char>>, p: Seq<char>)
    requires
        s.no_duplicates(),
    ensures
        with_peer(s, p).no_duplicates(),
        with_peer(s, p).contains(p),
{
    if !s.contains(p) {
        let u = s.push(p);
        assert(u[s.len() as int] == p);
        assert forall|a: int, b: int| 0 <= a < u.len() && 0 <= b < u.len() && a != b implies u[a] != u[b] by {
            if a == s.len() && u[b] == p {
                assert(s[b] == p);
            } else if b == s.len() && u[a] == p {
                assert(s[a] == p);
            }
        }
    } else {
        assert(with_peer(s, p) == s);
    }
}

proof fn lemma_kept_in(s: Seq<Seq<char>>, keep: Seq<Seq<char>>)
    requires
        s.no_duplicates(),
    ensures
        kept_in(s, keep).no_duplicates(),
        kept_in(s, keep).len() <= s.len(),
        forall|q: Seq<char>| kept_in(s, keep).contains(q) ==> s.contains(q) && keep.contains(q),
    decreases s.len(),
{
    if s.len() > 0 {
        let d = s.drop_last();
        assert(d.no_duplicates()) by {
            assert forall|a: int, b: int| 0 <= a < d.len() && 0 <= b < d.len() && a != b implies d[a] != d[b] by {
                assert(d[a] == s[a] && d[b] == s[b]);
            }
        }
        lemma_kept_in(d, keep);
        let k = kept_in(d, keep);
        assert forall|q: Seq<char>| kept_in(s, keep).contains(q) implies s.contains(q) && keep.contains(q) by {
            if keep.contains(s.last()) && q == s.last() {
                assert(s[s.len() - 1] == q);
            } else {
                let u = kept_in(s, keep);
                let a = choose|a: int| 0 <= a < u.len() && u[a] == q;
                if keep.contains(s.last()) && a == k.len() {
                    assert(s[s.len() - 1] == q);
                } else {
                    assert(k[a] == q);
                    assert(k.contains(q));
                    assert(d.contains(q) && keep.contains(q));
                    let b = choose|b: int| 0 <= b < d.len() && d[b] == q;
                    assert(s[b] == q);
                }
            }
        }
        if keep.contains(s.last()) {
            let u = k.push(s.last());
            assert forall|a: int, b: int| 0 <= a < u.len() && 0 <= b < u.len() && a != b implies u[a] != u[b] by {
                if (a == k.len() && u[b] == s.last()) || (b == k.len() && u[a] == s.last()) {
                    let c = if a == k.len() { b } else { a };
                    assert(k[c] == s.last());
                    assert(k.contains(s.last()));
                    assert(d.contains(s.last()));
                    let e = choose|e: int| 0 <= e < d.len() && d[e] == s.last();
                    assert(s[e] == s[s.len() - 1]);
                }
            }
        }
    }
}

/// Which peers this node knows about.
#[derive(Debug)]
pub struct PeerTracker {
    connected: Vec<String>,
    seen: Vec<String>,
    service_peers: Vec<String>,
    dht_sync_done: bool,
}

impl PeerTracker {
    /// Peers connected now.
    pub closed spec fn connected_spec(&self) -> Seq<Seq<char>> {
        views(self.connected@)
    }

    /// Peers seen (bounded record).
    pub closed spec fn seen_spec(&self) -> Seq<Seq<char>> {
        views(self.seen@)
    }

    /// Peers that announced they run this service.
    pub closed spec fn service_spec(&self) -> Seq<Seq<char>> {
        views(self.service_peers@)
    }

    /// Whether the deferred DHT sync has been started since the node last had peers.
    pub closed spec fn synced_spec(&self) -> bool {
        self.dht_sync_done
    }

    /// The tracker invariant: every list holds a peer once; the bounded lists stay bounded.
    pub open spec fn wf(&self) -> bool {
        &&& self.connected_spec().no_duplicates()
        &&& self.seen_spec().no_duplicates()
        &&& self.service_spec().no_duplicates()
        &&& self.seen_spec().len() <= 4096
        &&& self.service_spec().len() <= 1024
    }

    /// A tracker that knows no peer.
    pub fn new() -> (r: PeerTracker)
        ensures
            r.wf(),
            r.connected_spec().len() == 0 && r.seen_spec().len() == 0 && r.service_spec().len() == 0,
            !r.synced_spec(),
    {
        let r = PeerTracker { connected: Vec::new(), seen: Vec::new(), service_peers: Vec::new(), dht_sync_done: false };
        assert(r.connected_spec() =~= seq![]);
        assert(r.seen_spec() =~= seq![]);
        assert(r.service_spec() =~= seq![]);
        r
    }

    fn add(v: &mut Vec<String>, p: &str)
        ensures
            views(final(v)@) == with_peer(views(old(v)@), p@),
    {
        if !list_contains(v, p) {
            let ghost before = v@;
            v.push(p.to_owned());
            assert(views(v@) =~= views(before).push(p@));
        }
    }

    fn remove(v: &mut Vec<String>, p: &str)
        requires
            views(old(v)@).no_duplicates(),
        ensures
            views(final(v)@) == without_peer(views(old(v)@), p@),
    {
        let ghost before = views(v@);
        match list_position(v, p) {
            Some(i) => {
                proof {
                    assert(before.contains(p@));
                    let j = before.index_of(p@);
                    assert(before[j] == p@ && before[i as int] == p@);
                    if j != i {
                        assert(before[j] != before[i as int]);
                    }
                }
                v.remove(i);
                assert(views(v@) =~= before.remove(i as int));
            },
            None => {},
        }
    }

    /// A peer connected. Returns whether the deferred DHT sync is to start now: on the first
    /// connection since the node had no peers.
    pub fn on_connected(&mut self, peer_id: &str) -> (r: bool)
        requires
            old(self).wf(),
        ensures
            final(self).wf(),
            r == !old(self).synced_spec(),
            final(self).synced_spec(),
            final(self).connected_spec() == with_peer(old(self).connected_spec(), peer_id@),
            final(self).seen_spec() == with_peer(
                if old(self).seen_spec().len() >= 4096 { seq![] } else { old(self).seen_spec() },
                peer_id@,
            ),
            final(self).service_spec() == old(self).service_spec(),
    {
        PeerTracker::add(&mut self.connected, peer_id);
        proof {
            lemma_add_no_duplicates(old(self).connected_spec(), peer_id@);
        }
        if self.seen.len() >= MAX_SEEN_PEERS {
            self.seen = Vec::new();
            assert(views(self.seen@) =~= seq![]);
        }
        let ghost s0 = views(self.seen@);
        PeerTracker::add(&mut self.seen, peer_id);
        proof {
            lemma_add_no_duplicates(s0, peer_id@);
        }
        let trigger = !self.dht_sync_done;
        self.dht_sync_done = true;
        trigger
    }

    /// A peer disconnected: it is no longer connected nor a service peer; with no peer left,
    /// the next connection starts the DHT sync again.
    pub fn on_disconnected(&mut self, peer_id: &str)
        requires
            old(self).wf(),
        ensures
            final(self).wf(),
            final(self).connected_spec() == without_peer(old(self).connected_spec(), peer_id@),
            final(self).service_spec() == without_peer(old(self).service_spec(), peer_id@),
            final(self).seen_spec() == old(self).seen_spec(),
            final(self).synced_spec() == (old(self).synced_spec() && final(self).connected_spec().len() > 0),
    {
        PeerTracker::remove(&mut self.connected, peer_id);
        PeerTracker::remove(&mut self.service_peers, peer_id);
        proof {
            lemma_remove_no_duplicates(old(self).connected_spec(), peer_id@);
            lemma_remove_no_duplicates(old(self).service_spec(), peer_id@);
        }
        if self.connected.len() == 0 {
            self.dht_sync_done = false;
        }
    }

    /// A peer announced it runs this service. Returns whether it was new.
    pub fn on_announced(&mut self, peer_id: &str) -> (r: bool)
        requires
            old(self).wf(),
        ensures
            final(self).wf(),
            r == !old(self).service_spec().contains(peer_id@),
            final(self).service_spec() == announced(old(self).service_spec(), old(self).connected_spec(), peer_id@),
            final(self).connected_spec() == old(self).connected_spec(),
            final(self).seen_spec() == old(self).seen_spec(),
            final(self).synced_spec() == old(self).synced_spec(),
    {
        if list_contains(&self.service_peers, peer_id) {
            return false;
        }
        let ghost s0 = self.service_spec();
        if self.service_peers.len() >= MAX_SERVICE_PEERS {
            let mut kept: Vec<String> = Vec::new();
            let mut i: usize = 0;
            while i < self.service_peers.len()
                invariant
                    i <= self.service_peers@.len(),
                    s0 == views(self.service_peers@),
                    views(kept@) == kept_in(s0.take(i as int), views(self.connected@)),
                decreases self.service_peers@.len() - i,
            {
                proof {
                    assert(s0.take(i + 1).drop_last() =~= s0.take(i as int));
                    assert(s0.take(i + 1).last() == self.service_peers@[i as int]@);
                }
                if list_contains(&self.connected, self.service_peers[i].as_str()) {
                    let ghost b = kept@;
                    kept.push(self.service_peers[i].clone());
                    assert(views(kept@) =~= views(b).push(self.service_peers@[i as int]@));
                }
                i = i + 1;
            }
            assert(s0.take(s0.len() as int) =~= s0);
            self.service_peers = kept;
            proof {
                lemma_kept_in(s0, self.connected_spec());
            }
        }
        let ghost s1 = self.service_spec();
        if self.service_peers.len() < MAX_SERVICE_PEERS {
            let ghost b = self.service_peers@;
            self.service_peers.push(peer_id.to_owned());
            assert(views(self.service_peers@) =~= views(b).push(peer_id@));
            proof {
                assert(!s1.contains(peer_id@)) by {
                    if s1.contains(peer_id@) {
                        if s0.len() >= 1024 {
                            lemma_kept_in(s0, old(self).connected_spec());
                        }
                    }
                }
                lemma_add_no_duplicates(s1, peer_id@);
            }
        }
        true
    }

    /// (peers seen, peers connected), for the network statistics.
    pub fn stats(&self) -> (r: (usize, usize))
        ensures
            r.0 == self.seen_spec().len(),
            r.1 == self.connected_spec().len(),
    {
        (self.seen.len(), self.connected.len())
    }

    /// Whether to dial the bootstrap peers again: the network is on and there are fewer
    /// than two connections, or no peer has announced this service.
    pub fn should_redial(&self, network_enabled: bool) -> (r: bool)
        ensures
            r == (network_enabled && (self.connected_spec().len() < 2 || self.service_spec().len() == 0)),
    {
        network_enabled && (self.connected.len() < 2 || self.service_peers.len() == 0)
    }

    /// Whether no peer has announced this service yet.
    pub fn no_service_peers(&self) -> (r: bool)
        ensures
            r == (self.service_spec().len() == 0),
    {
        self.service_peers.len() == 0
    }
}

/// A disconnected peer is neither connected nor a service peer afterwards, and peers other
/// than it keep their standing.
pub proof fn lemma_disconnect_forgets_only_that_peer(connected: Seq<Seq<char>>, service: Seq<Seq<char>>, p: Seq<char>)
    requires
        connected.no_duplicates(),
        service.no_duplicates(),
    ensures
        !without_peer(connected, p).contains(p),
        !without_peer(service, p).contains(p),
        forall|q: Seq<char>| q != p ==> (without_peer(connected, p).contains(q) <==> connected.contains(q)),
{
    lemma_remove_no_duplicates(connected, p);
    lemma_remove_no_duplicates(service, p);
}

/// The delays, in seconds, between attempts to re-dial bootstrap peers: 5, 10 and 20 at
/// start-up, then 30 from then on.
#[derive(Debug)]
pub struct ReconnectSchedule {
    step: usize,
}

/// The `n`-th re-dial delay.
pub open spec fn redial_delay(n: nat) -> u64 {
    if n == 0 {
        5
    } else if n == 1 {
        10
    } else if n == 2 {
        20
    } else {
        30
    }
}

impl ReconnectSchedule {
    /// How many delays have been handed out (capped at 3).
    pub closed spec fn step_spec(&self) -> nat {
        self.step as nat
    }

    /// A schedule at its start.
    pub fn new() -> (r: ReconnectSchedule)
        ensures
            r.step_spec() == 0,
    {
        ReconnectSchedule { step: 0 }
    }

    /// The next delay.
    pub fn next_delay(&mut self) -> (r: u64)
        requires
            old(self).step_spec() <= 3,
        ensures
            r == redial_delay(old(self).step_spec()),
            final(self).step_spec() == (if old(self).step_spec() < 3 { old(self).step_spec() + 1 } else { 3 }),
            final(self).step_spec() <= 3,
    {
        let d = if self.step == 0 {
            5
        } else if self.step == 1 {
            10
        } else if self.step == 2 {
            20
        } else {
            30
        };
        if self.step < 3 {
            self.step = self.step + 1;
        }
        d
    }
}

/// Whether at least `interval` seconds have passed since `last` at `now`.
pub fn interval_elapsed(last: u64, interval: u64, now: u64) -> (r: bool)
    ensures
        r == (now >= last && now - last >= interval),
{
    now >= last && now - last >= interval
}

/// How many votes each display name of a public monitor received.
#[derive(Debug)]
pub struct NameCount {
    pub name: String,
    pub count: usize,
}

/// The display-name votes of one domain.
#[derive(Debug)]
pub struct DomainVotes {
    pub domain: String,
    pub names: Vec<NameCount>,
}

/// The vote counts of names, in the order they were first voted.
pub open spec fn counts_view(v: Seq<NameCount>) -> Seq<(Seq<char>, usize)> {
    v.map_values(|c: NameCount| (c.name@, c.count))
}

/// The votes per domain.
pub open spec fn domain_votes_view(v: Seq<DomainVotes>) -> Seq<(Seq<char>, Seq<(Seq<char>, usize)>)> {
    v.map_values(|d: DomainVotes| (d.domain@, counts_view(d.names@)))
}

/// Whether name `i` leads clearly: at least 2 votes, and more than one vote ahead of every
/// other name.
pub open spec fn leads(names: Seq<(Seq<char>, usize)>, i: int) -> bool {
    0 <= i < names.len() && names[i].1 >= 2 && forall|j: int|
        0 <= j < names.len() && j != i ==> names[i].1 > #[trigger] names[j].1 + 1
}

/// The name agreed on, if one leads clearly.
pub open spec fn consensus(names: Seq<(Seq<char>, usize)>) -> Option<Seq<char>> {
    if exists|i: int| leads(names, i) {
        Some(names[choose|i: int| leads(names, i)].0)
    } else {
        None
    }
}

/// The counts after one more vote for `name`.
pub open spec fn bumped(names: Seq<(Seq<char>, usize)>, name: Seq<char>) -> Seq<(Seq<char>, usize)> {
    if crate::private_monitors::has_k(names, name) {
        let i = crate::private_monitors::idx_k(names, name);
        names.update(i, (name, (names[i].1 + 1) as usize))
    } else {
        names.push((name, 1usize))
    }
}

/// Votes for public monitors' display names, per domain.
#[derive(Debug)]
pub struct NameVotes {
    domains: Vec<DomainVotes>,
}

impl NameVotes {
    /// The votes per domain.
    pub closed spec fn votes(&self) -> Seq<(Seq<char>, Seq<(Seq<char>, usize)>)> {
        domain_votes_view(self.domains@)
    }

    /// Each domain, and each name within a domain, is listed once.
    pub open spec fn wf(&self) -> bool {
        &&& crate::private_monitors::distinct_k(self.votes())
        &&& forall|i: int| 0 <= i < self.votes().len() ==> crate::private_monitors::distinct_k(#[trigger] self.votes()[i].1)
    }

    /// Every count can take one more vote.
    pub open spec fn has_room(&self) -> bool {
        forall|i: int, j: int|
            0 <= i < self.votes().len() && 0 <= j < self.votes()[i].1.len() ==> #[trigger] self.votes()[i].1[j].1 < usize::MAX
    }

    /// No votes yet.
    pub fn new() -> (r: NameVotes)
        ensures
            r.wf(),
            r.votes().len() == 0,
    {
        let r = NameVotes { domains: Vec::new() };
        assert(r.votes() =~= seq![]);
        r
    }

    /// Records a vote for `display_name` as the name of `domain`. Returns the name agreed on
    /// for the domain, if one now leads clearly.
    pub fn record_vote(&mut self, domain: &str, display_name: &str) -> (r: Option<String>)
        requires
            old(self).wf(),
            old(self).has_room(),
        ensures
            final(self).wf(),
            final(self).votes() == crate::private_monitors::set_k(
                old(self).votes(),
                domain@,
                bumped(
                    match crate::private_monitors::get_k(old(self).votes(), domain@) {
                        Some(n) => n,
                        None => seq![],
                    },
                    display_name@,
                ),
            ),
            match r {
                Some(n) => consensus(bumped(
                    match crate::private_monitors::get_k(old(self).votes(), domain@) {
                        Some(n) => n,
                        None => seq![],
                    },
                    display_name@,
                )) == Some(n@),
                None => consensus(bumped(
                    match crate::private_monitors::get_k(old(self).votes(), domain@) {
                        Some(n) => n,
                        None => seq![],
                    },
                    display_name@,
                )) is None,
            },
    {
        let ghost v = self.votes();
        assert(crate::private_monitors::distinct_k(v));
        let mut di: usize = 0;
        let mut found = false;
        while !found && di < self.domains.len()
            invariant
                di <= self.domains@.len(),
                v == self.votes(),
                found ==> di < self.domains@.len() && v[di as int].0 == domain@,
                forall|j: int| 0 <= j < di ==> v[j].0 != domain@,
            decreases self.domains@.len() - di, (if found { 0int } else { 1int }),
        {
            if str_equal(self.domains[di].domain.as_str(), domain) {
                found = true;
            } else {
                di = di + 1;
            }
        }
        proof {
            if found {
                assert(v[di as int].0 == domain@);
                assert(crate::private_monitors::has_k(v, domain@));
                let c = crate::private_monitors::idx_k(v, domain@);
                if c != di {
                    assert(v[c].0 == v[di as int].0);
                }
            }
        }
        let ghost before = match crate::private_monitors::get_k(v, domain@) {
            Some(n) => n,
            None => seq![],
        };
        let mut names: Vec<NameCount> = Vec::new();
        if found {
            let mut k: usize = 0;
            while k < self.domains[di].names.len()
                invariant
                    di < self.domains@.len(),
                    k <= self.domains@[di as int].names@.len(),
                    counts_view(names@) == counts_view(self.domains@[di as int].names@).take(k as int),
                decreases self.domains@[di as int].names@.len() - k,
            {
                let c = &self.domains[di].names[k];
                let ghost b = names@;
                names.push(NameCount { name: c.name.clone(), count: c.count });
                assert(counts_view(names@) =~= counts_view(b).push((c.name@, c.count)));
                assert(counts_view(self.domains@[di as int].names@).take(k + 1) =~= counts_view(self.domains@[di as int].names@).take(k as int).push((c.name@, c.count)));
                k = k + 1;
            }
            assert(counts_view(self.domains@[di as int].names@).take(self.domains@[di as int].names@.len() as int) =~= counts_view(self.domains@[di as int].names@));
        } else {
            assert(counts_view(names@) =~= seq![]);
        }
        assert(counts_view(names@) == before);
        proof {
            if found {
                assert(self.votes()[di as int].1 == before);
                assert(crate::private_monitors::distinct_k(before));
                assert forall|j: int| 0 <= j < before.len() implies #[trigger] before[j].1 < usize::MAX by {
                    assert(self.votes()[di as int].1[j].1 < usize::MAX);
                }
            }
        }
        // One more vote for the name.
        let ghost cv = counts_view(names@);
        let mut ni: usize = 0;
        let mut present = false;
        while !present && ni < names.len()
            invariant
                ni <= names@.len(),
                cv == counts_view(names@),
                present ==> ni < names@.len() && cv[ni as int].0 == display_name@,
                forall|j: int| 0 <= j < ni ==> cv[j].0 != display_name@,
            decreases names@.len() - ni, (if present { 0int } else { 1int }),
        {
            if str_equal(names[ni].name.as_str(), display_name) {
                present = true;
            } else {
                ni = ni + 1;
            }
        }
        if present {
            proof {
                assert(cv[ni as int].0 == display_name@);
                assert(crate::private_monitors::has_k(cv, display_name@));
                let c = crate::private_monitors::idx_k(cv, display_name@);
                if c != ni {
                    assert(crate::private_monitors::distinct_k(cv));
                    assert(cv[c].0 == cv[ni as int].0);
                }
                assert(cv[ni as int].1 < usize::MAX);
            }
            let n = names[ni].name.clone();
            let count = names[ni].count + 1;
            names.set(ni, NameCount { name: n, count });
            assert(counts_view(names@) =~= cv.update(ni as int, (display_name@, count)));
        } else {
            names.push(NameCount { name: display_name.to_owned(), count: 1 });
            assert(counts_view(names@) =~= cv.push((display_name@, 1usize)));
        }
        let ghost after = counts_view(names@);
        assert(after == bumped(before, display_name@));
        proof {
            lemma_bumped_distinct(before, display_name@);
        }
        let winner = NameVotes::leader(&names);
        let entry = DomainVotes { domain: domain.to_owned(), names };
        let ghost ev = (domain@, after);
        if found {
            self.domains.set(di, entry);
            assert(self.votes() =~= v.update(di as int, ev));
        } else {
            self.domains.push(entry);
            assert(self.votes() =~= v.push(ev));
        }
        proof {
            let u = self.votes();
            assert forall|a: int, b: int| 0 <= a < b < u.len() implies u[a].0 != u[b].0 by {
                if found {
                    assert(u[a].0 == v[a].0 && u[b].0 == v[b].0);
                } else if b == v.len() && u[a].0 == domain@ {
                    assert(v[a].0 == domain@);
                }
            }
            assert forall|a: int| 0 <= a < u.len() implies crate::private_monitors::distinct_k(#[trigger] u[a].1) by {
                if u[a] != ev {
                    assert(u[a] == v[a]);
                }
            }
        }
        winner
    }

    /// The name that leads clearly, if any.
    fn leader(names: &Vec<NameCount>) -> (r: Option<String>)
        ensures
            match r {
                Some(n) => consensus(counts_view(names@)) == Some(n@),
                None => consensus(counts_view(names@)) is None,
            },
    {
        let ghost cv = counts_view(names@);
        if names.len() == 0 {
            return None;
        }
        // The first name with the most votes.
        let mut idx: usize = 0;
        let mut k: usize = 1;
        while k < names.len()
            invariant
                1 <= k <= names@.len(),
                idx < k,
                cv == counts_view(names@),
                forall|j: int| 0 <= j < k ==> cv[j].1 <= cv[idx as int].1,
            decreases names@.len() - k,
        {
            if names[k].count > names[idx].count {
                idx = k;
            }
            k = k + 1;
        }
        let top = names[idx].count;
        // The most votes of any other name.
        let mut runner_up: usize = 0;
        let mut m: usize = 0;
        while m < names.len()
            invariant
                m <= names@.len(),
                idx < names@.len(),
                cv == counts_view(names@),
                forall|j: int| 0 <= j < m && j != idx ==> cv[j].1 <= runner_up,
                runner_up == 0 || exists|j: int| 0 <= j < m && j != idx && #[trigger] cv[j].1 == runner_up,
            decreases names@.len() - m,
        {
            if m != idx && names[m].count > runner_up {
                runner_up = names[m].count;
                assert(cv[m as int].1 == runner_up);
            }
            m = m + 1;
        }
        proof {
            if exists|i: int| leads(cv, i) {
                let i = choose|i: int| leads(cv, i);
                if idx != i {
                    assert(cv[i].1 > cv[idx as int].1 + 1);
                    assert(cv[i].1 <= cv[idx as int].1);
                }
                if runner_up != 0 {
                    let j = choose|j: int| 0 <= j < names@.len() && j != idx && #[trigger] cv[j].1 == runner_up;
                    assert(cv[i].1 > cv[j].1 + 1);
                }
            }
        }
        if top >= 2 && top as u128 > runner_up as u128 + 1 {
            proof {
                assert(leads(cv, idx as int));
                let i = choose|i: int| leads(cv, i);
                if i != idx {
                    assert(cv[i].1 > cv[idx as int].1 + 1);
                    assert(cv[idx as int].1 > cv[i].1 + 1);
                }
            }
            Some(names[idx].name.clone())
        } else {
            None
        }
    }
}

proof fn lemma_bumped_distinct(names: Seq<(Seq<char>, usize)>, name: Seq<char>)
    requires
        crate::private_monitors::distinct_k(names),
    ensures
        crate::private_monitors::distinct_k(bumped(names, name)),
{
    let b = bumped(names, name);
    if crate::private_monitors::has_k(names, name) {
        assert forall|a: int, c: int| 0 <= a < c < b.len() implies b[a].0 != b[c].0 by {
            assert(b[a].0 == names[a].0 && b[c].0 == names[c].0);
        }
    } else {
        assert forall|a: int, c: int| 0 <= a < c < b.len() implies b[a].0 != b[c].0 by {
            if c == names.len() && b[a].0 == name {
                assert(names[a].0 == name);
            }
        }
    }
}

/// A clearly leading name is the one name with the most votes, and no other name leads.
pub proof fn lemma_consensus_unique(names: Seq<(Seq<char>, usize)>, i: int)
    requires
        leads(names, i),
    ensures
        consensus(names) == Some(names[i].0),
        forall|j: int| 0 <= j < names.len() && j != i ==> names[j].1 < names[i].1,
{
    let c = choose|k: int| leads(names, k);
    if c != i {
        assert(names[c].1 > names[i].1 + 1);
        assert(names[i].1 > names[c].1 + 1);
    }
}

/// Most monitors this node helps with at once.
pub const MAX_HELPER_ASSIGNMENTS: usize = 10;

/// Seconds a helper assignment lasts.
pub const HELPER_ASSIGNMENT_TTL_SECS: u64 = 600;

/// Seconds a received result may be ahead of this node's clock.
pub const MAX_FUTURE_SKEW_SECS: u64 = 30;

/// Seconds after which a received result is stale.
pub const MAX_RESULT_AGE_SECS: u64 = 300;

/// A monitor this node checks for another node (the owner), and until when.
#[derive(Debug)]
pub struct HelperAssignmentInfo {
    pub monitor_uuid: u128,
    pub owner_peer_id: String,
    pub owner_public_key: [u8; 32],
    pub expires_at: u64,
}

/// The monitors this node helps with.
#[derive(Debug)]
pub struct HelperAssignments {
    entries: Vec<HelperAssignmentInfo>,
}

/// The ids of the assignments.
pub open spec fn assignment_ids(v: Seq<HelperAssignmentInfo>) -> Seq<u128> {
    v.map_values(|a: HelperAssignmentInfo| a.monitor_uuid)
}

/// The expiry of each assignment, in order.
pub open spec fn assignment_expiries(v: Seq<HelperAssignmentInfo>) -> Seq<u64> {
    v.map_values(|a: HelperAssignmentInfo| a.expires_at)
}

/// The ids of the assignments that have not expired at `now`, in order.
pub open spec fn live_ids(ids: Seq<u128>, expiries: Seq<u64>, now: u64) -> Seq<u128>
    decreases ids.len(),
{
    if ids.len() == 0 || ids.len() != expiries.len() {
        seq![]
    } else if expiries.last() > now {
        live_ids(ids.drop_last(), expiries.drop_last(), now).push(ids.last())
    } else {
        live_ids(ids.drop_last(), expiries.drop_last(), now)
    }
}

/// The assignments after recording `info`: it replaces the assignment of the same monitor,
/// or is appended.
pub open spec fn leased(v: Seq<HelperAssignmentInfo>, info: HelperAssignmentInfo) -> Seq<HelperAssignmentInfo> {
    if assignment_ids(v).contains(info.monitor_uuid) {
        v.update(assignment_ids(v).index_of(info.monitor_uuid), info)
    } else {
        v.push(info)
    }
}

impl HelperAssignments {
    /// The monitors helped with, in order.
    pub closed spec fn ids(&self) -> Seq<u128> {
        assignment_ids(self.entries@)
    }

    /// The assignments, in order.
    pub closed spec fn infos(&self) -> Seq<HelperAssignmentInfo> {
        self.entries@
    }

    /// Their expiry times, in the same order.
    pub closed spec fn expiries(&self) -> Seq<u64> {
        assignment_expiries(self.entries@)
    }

    /// Each monitor is helped with once.
    pub open spec fn wf(&self) -> bool {
        self.ids().no_duplicates()
    }

    /// No assignments.
    pub fn new() -> (r: HelperAssignments)
        ensures
            r.wf(),
            r.ids().len() == 0,
    {
        let r = HelperAssignments { entries: Vec::new() };
        assert(r.ids() =~= seq![]);
        r
    }

    /// How many monitors this node helps with.
    pub fn count(&self) -> (r: usize)
        ensures
            r == self.ids().len(),
    {
        self.entries.len()
    }

    fn position(&self, monitor_uuid: u128) -> (r: Option<usize>)
        ensures
            r matches Some(i) ==> i < self.ids().len() && self.ids()[i as int] == monitor_uuid,
            r is None ==> !self.ids().contains(monitor_uuid),
    {
        let mut i: usize = 0;
        while i < self.entries.len()
            invariant
                i <= self.entries@.len(),
                forall|j: int| 0 <= j < i ==> self.ids()[j] != monitor_uuid,
            decreases self.entries@.len() - i,
        {
            if self.entries[i].monitor_uuid == monitor_uuid {
                return Some(i);
            }
            i = i + 1;
        }
        None
    }

    /// Whether this node helps with the monitor.
    pub fn contains(&self, monitor_uuid: u128) -> (r: bool)
        ensures
            r == self.ids().contains(monitor_uuid),
    {
        self.position(monitor_uuid).is_some()
    }

    /// The assignment of the monitor, if this node helps with it.
    pub fn get(&self, monitor_uuid: u128) -> (r: Option<&HelperAssignmentInfo>)
        ensures
            r matches Some(a) ==> a.monitor_uuid == monitor_uuid && self.infos().contains(*a),
            r is None ==> !self.ids().contains(monitor_uuid),
    {
        match self.position(monitor_uuid) {
            Some(i) => Some(&self.entries[i]),
            None => None,
        }
    }

    /// Records an assignment, replacing an earlier one of the same monitor.
    pub fn insert(&mut self, info: HelperAssignmentInfo)
        requires
            old(self).wf(),
        ensures
            final(self).wf(),
            final(self).ids() == (if old(self).ids().contains(info.monitor_uuid) {
                old(self).ids()
            } else {
                old(self).ids().push(info.monitor_uuid)
            }),
            final(self).ids().contains(info.monitor_uuid),
            final(self).infos() == leased(old(self).infos(), info),
    {
        let ghost v = self.ids();
        let ghost w = self.infos();
        let ghost info_copy = info;
        let id = info.monitor_uuid;
        match self.position(id) {
            Some(i) => {
                self.entries.set(i, info);
                assert(self.ids() =~= v);
                assert(v.contains(id));
                proof {
                    let j = v.index_of(id);
                    assert(0 <= j < v.len() && v[j] == id);
                    assert(i as int == j);
                    assert(assignment_ids(w).contains(id));
                    assert(self.infos() =~= w.update(i as int, info_copy));
                }
            },
            None => {
                self.entries.push(info);
                assert(self.ids() =~= v.push(id));
                assert(self.infos() =~= w.push(info_copy));
                proof {
                    let u = self.ids();
                    assert(u[v.len() as int] == id);
                    assert forall|a: int, b: int| 0 <= a < u.len() && 0 <= b < u.len() && a != b implies u[a] != u[b] by {
                        if a == v.len() && u[b] == id {
                            assert(v[b] == id);
                        } else if b == v.len() && u[a] == id {
                            assert(v[a] == id);
                        }
                    }
                }
            },
        }
    }

    /// Forgets the assignments that have expired at `now` (those whose expiry is not after it).
    pub fn expire(&mut self, now: u64)
        requires
            old(self).wf(),
        ensures
            final(self).wf(),
            final(self).ids() == live_ids(old(self).ids(), old(self).expiries(), now),
            forall|i: int| 0 <= i < final(self).expiries().len() ==> #[trigger] final(self).expiries()[i] > now,
    {
        let ghost ids0 = self.ids();
        let ghost exp0 = self.expiries();
        let mut kept: Vec<HelperAssignmentInfo> = Vec::new();
        let mut i: usize = 0;
        while i < self.entries.len()
            invariant
                i <= self.entries@.len(),
                ids0 == self.ids(),
                exp0 == self.expiries(),
                ids0.len() == exp0.len() == self.entries@.len(),
                assignment_ids(kept@) == live_ids(ids0.take(i as int), exp0.take(i as int), now),
                forall|k: int| 0 <= k < kept@.len() ==> (#[trigger] kept@[k]).expires_at > now,
            decreases self.entries@.len() - i,
        {
            let e = &self.entries[i];
            proof {
                assert(ids0.take(i + 1).drop_last() =~= ids0.take(i as int));
                assert(exp0.take(i + 1).drop_last() =~= exp0.take(i as int));
                assert(ids0.take(i + 1).last() == e.monitor_uuid);
                assert(exp0.take(i + 1).last() == e.expires_at);
            }
            if e.expires_at > now {
                let ghost b = kept@;
                kept.push(HelperAssignmentInfo {
                    monitor_uuid: e.monitor_uuid,
                    owner_peer_id: e.owner_peer_id.clone(),
                    owner_public_key: e.owner_public_key,
                    expires_at: e.expires_at,
                });
                assert(assignment_ids(kept@) =~= assignment_ids(b).push(e.monitor_uuid));
            }
            i = i + 1;
        }
        assert(ids0.take(ids0.len() as int) =~= ids0);
        assert(exp0.take(exp0.len() as int) =~= exp0);
        self.entries = kept;
        proof {
            lemma_live_ids(ids0, exp0, now);
            assert forall|k: int| 0 <= k < self.expiries().len() implies #[trigger] self.expiries()[k] > now by {
                assert(self.expiries()[k] == kept@[k].expires_at);
            }
        }
    }

    /// The monitors helped with.
    pub fn monitor_ids(&self) -> (r: Vec<u128>)
        ensures
            r@ == self.ids(),
    {
        let mut out: Vec<u128> = Vec::new();
        let mut i: usize = 0;
        while i < self.entries.len()
            invariant
                i <= self.entries@.len(),
                out@ == self.ids().take(i as int),
            decreases self.entries@.len() - i,
        {
            out.push(self.entries[i].monitor_uuid);
            assert(out@ =~= self.ids().take(i + 1));
            i = i + 1;
        }
        assert(self.ids().take(self.ids().len() as int) =~= self.ids());
        out
    }
}

proof fn lemma_live_ids(ids: Seq<u128>, expiries: Seq<u64>, now: u64)
    requires
        ids.no_duplicates(),
        ids.len() == expiries.len(),
    ensures
        live_ids(ids, expiries, now).no_duplicates(),
        forall|x: u128| live_ids(ids, expiries, now).contains(x) ==> ids.contains(x),
    decreases ids.len(),
{
    if ids.len() > 0 {
        let d = ids.drop_last();
        assert(d.no_duplicates()) by {
            assert forall|a: int, b: int| 0 <= a < d.len() && 0 <= b < d.len() && a != b implies d[a] != d[b] by {
                assert(d[a] == ids[a] && d[b] == ids[b]);
            }
        }
        lemma_live_ids(d, expiries.drop_last(), now);
        let l = live_ids(d, expiries.drop_last(), now);
        assert forall|x: u128| live_ids(ids, expiries, now).contains(x) implies ids.contains(x) by {
            let u = live_ids(ids, expiries, now);
            let a = choose|a: int| 0 <= a < u.len() && u[a] == x;
            if expiries.last() > now && a == l.len() {
                assert(ids[ids.len() - 1] == x);
            } else {
                assert(l[a] == x);
                assert(l.contains(x));
                assert(d.contains(x));
                let b = choose|b: int| 0 <= b < d.len() && d[b] == x;
                assert(ids[b] == x);
            }
        }
        if expiries.last() > now {
            let u = l.push(ids.last());
            assert forall|a: int, b: int| 0 <= a < u.len() && 0 <= b < u.len() && a != b implies u[a] != u[b] by {
                if (a == l.len() && u[b] == ids.last()) || (b == l.len() && u[a] == ids.last()) {
                    let c = if a == l.len() { b } else { a };
                    assert(l[c] == ids.last());
                    assert(l.contains(ids.last()));
                    assert(d.contains(ids.last()));
                    let e = choose|e: int| 0 <= e < d.len() && d[e] == ids.last();
                    assert(ids[e] == ids[ids.len() - 1]);
                }
            }
        }
    }
}

/// Why a helper request was rejected.
#[derive(Debug, Clone, Copy, PartialEq, Eq, Structural)]
pub enum HelperRejection {
    /// Remote checks are off, the request is out of bounds, or the monitor already runs here.
    NotPermitted,
    /// This node already helps with as many monitors as it may (the count is given).
    AtCapacity(usize),
    /// The owner asked for too many checks this hour.
    RateLimited,
}

/// What to do with a helper request.
#[derive(Debug)]
pub enum HelperDecision {
    /// Answer with a rejection.
    Reject(HelperRejection),
    /// The monitor id does not parse: answer nothing.
    Ignore,
    /// Check the monitor with this configuration and answer with an acceptance.
    Accept(crate::monitoring::MonitorConfig),
}

/// Whether a helper request may be considered at all: remote checks are on, the interval
/// lies within 10 s and 24 h, the target is at most 2048 bytes, and the monitor (its id, or
/// the nil id when it does not parse) is not already scheduled here.
pub open spec fn helper_request_permitted(
    accept_remote_checks: bool,
    request: crate::messages::HelperAssignmentRequest,
    scheduled: Seq<u128>,
) -> bool {
    &&& accept_remote_checks
    &&& 10 <= request.interval_seconds <= 86400
    &&& (vstd::utf8::encode_utf8(request.target@).len() as usize) <= 2048
    &&& !scheduled.contains(
        match crate::models::uuid_parsed(request.monitor_uuid@) {
            Some(u) => u,
            None => 0u128,
        },
    )
}

/// The text sent back with a rejection.
pub fn rejection_reason(r: HelperRejection) -> (s: String)
    ensures
        r == HelperRejection::NotPermitted ==> s@ == "Remote check is not permitted"@,
        r == HelperRejection::RateLimited ==> s@ == "Owner rate limit exceeded"@,
        r matches HelperRejection::AtCapacity(n) ==> s@ == "Helper at capacity ("@ + crate::json::decimal(n as nat)
            + "/10)"@,
{
    match r {
        HelperRejection::NotPermitted => "Remote check is not permitted".to_owned(),
        HelperRejection::RateLimited => "Owner rate limit exceeded".to_owned(),
        HelperRejection::AtCapacity(n) => {
            let mut s = "Helper at capacity (".to_owned();
            crate::json::push_decimal(&mut s, n as u64);
            crate::json::push_str(&mut s, "/10)");
            s
        },
    }
}

/// Decides a request to help check another node's private monitor. Requests that are not
/// permitted are rejected; an unparsable monitor id is ignored; at capacity, or over the
/// owner's hourly check limit (counted at `utc_now`), the request is rejected. Otherwise
/// the assignment is recorded until `now + 600` and the monitor is to be checked every
/// `max(interval, 10)` seconds with a 10 s timeout, on public targets only.
pub fn decide_helper_request(
    accept_remote_checks: bool,
    request: &crate::messages::HelperAssignmentRequest,
    scheduled: &Vec<u128>,
    assignments: &mut HelperAssignments,
    limiter: &mut crate::rate_limit::PrivateMonitorRateLimiter,
    utc_now: i64,
    now: u64,
) -> (r: HelperDecision)
    requires
        old(assignments).wf(),
        old(limiter).wf(),
        now <= u64::MAX - 600,
    ensures
        final(assignments).wf(),
        final(limiter).wf(),
        !helper_request_permitted(accept_remote_checks, *request, scheduled@) ==> r == HelperDecision::Reject(
            HelperRejection::NotPermitted,
        ) && final(limiter).view_limits() == old(limiter).view_limits() && final(assignments).ids() == old(
            assignments,
        ).ids(),
        helper_request_permitted(accept_remote_checks, *request, scheduled@) && crate::models::uuid_parsed(
            request.monitor_uuid@,
        ) is None ==> r == HelperDecision::Ignore && final(limiter).view_limits() == old(limiter).view_limits()
            && final(assignments).ids() == old(assignments).ids(),
        helper_request_permitted(accept_remote_checks, *request, scheduled@) && crate::models::uuid_parsed(
            request.monitor_uuid@,
        ) is Some && old(assignments).ids().len() >= 10 ==> r == HelperDecision::Reject(
            HelperRejection::AtCapacity(old(assignments).ids().len() as usize),
        ) && final(limiter).view_limits() == old(limiter).view_limits() && final(assignments).ids() == old(
            assignments,
        ).ids(),
        helper_request_permitted(accept_remote_checks, *request, scheduled@) && crate::models::uuid_parsed(
            request.monitor_uuid@,
        ) is Some && old(assignments).ids().len() < 10 ==> {
            let outcome = crate::rate_limit::check_outcome(
                crate::rate_limit::current_limits(old(limiter).view_limits(), request.owner_peer_id@, utc_now),
                utc_now,
            );
            &&& final(limiter).view_limits() == crate::rate_limit::set_limits(
                old(limiter).view_limits(),
                request.owner_peer_id@,
                outcome.1,
            )
            &&& !outcome.0 ==> r == HelperDecision::Reject(HelperRejection::RateLimited) && final(assignments).ids()
                == old(assignments).ids()
            &&& outcome.0 ==> (r matches HelperDecision::Accept(c) && Some(c.id) == crate::models::uuid_parsed(
                request.monitor_uuid@,
            ) && c.target@ == request.target@ && c.check_type == crate::monitoring::check_type_of(
                request.check_type@,
            ) && c.interval_seconds == (if request.interval_seconds < 10 {
                10
            } else {
                request.interval_seconds
            }) && c.enabled && c.timeout_seconds == 10 && !c.allow_private_targets && c.phase_offset_secs == 0
                && final(assignments).ids().contains(c.id) && final(assignments).infos() == leased(
                old(assignments).infos(),
                (HelperAssignmentInfo {
                    monitor_uuid: c.id,
                    owner_peer_id: request.owner_peer_id,
                    owner_public_key: request.owner_public_key,
                    expires_at: (now + 600) as u64,
                }),
            ))
        },
        old(assignments).ids().len() <= 10 ==> final(assignments).ids().len() <= 10,
{
    let parsed = crate::models::parse_uuid(request.monitor_uuid.as_str());
    let probe: u128 = match parsed {
        Some(u) => u,
        None => 0,
    };
    let mut already = false;
    let mut k: usize = 0;
    while k < scheduled.len()
        invariant
            k <= scheduled@.len(),
            already == exists|j: int| 0 <= j < k && scheduled@[j] == probe,
        decreases scheduled@.len() - k,
    {
        if scheduled[k] == probe {
            already = true;
        }
        k = k + 1;
    }
    assert(already == scheduled@.contains(probe));
    let interval = request.interval_seconds;
    if !accept_remote_checks || interval < 10 || interval > 86400 || request.target.as_str().len() > 2048 || already {
        return HelperDecision::Reject(HelperRejection::NotPermitted);
    }
    let id = match parsed {
        Some(u) => u,
        None => return HelperDecision::Ignore,
    };
    let current = assignments.count();
    if current >= MAX_HELPER_ASSIGNMENTS {
        return HelperDecision::Reject(HelperRejection::AtCapacity(current));
    }
    if !limiter.can_check_at(request.owner_peer_id.as_str(), utc_now) {
        return HelperDecision::Reject(HelperRejection::RateLimited);
    }
    assignments.insert(HelperAssignmentInfo {
        monitor_uuid: id,
        owner_peer_id: request.owner_peer_id.clone(),
        owner_public_key: request.owner_public_key,
        expires_at: now + HELPER_ASSIGNMENT_TTL_SECS,
    });
    let config = crate::monitoring::MonitorConfig {
        id,
        target: request.target.clone(),
        check_type: crate::monitoring::check_type_from_name(request.check_type.as_str()),
        interval_seconds: if interval < 10 { 10 } else { interval },
        enabled: true,
        timeout_seconds: 10,
        allow_private_targets: false,
        phase_offset_secs: 0,
    };
    HelperDecision::Accept(config)
}

/// The answer to a helper request: an acceptance naming this node, a rejection with its
/// reason, or none when the request is ignored.
pub fn helper_response(decision: &HelperDecision, request: &crate::messages::HelperAssignmentRequest, own_peer_id: &str) -> (r:
    Option<crate::messages::HelperAssignmentResponse>)
    ensures
        decision is Ignore ==> r is None,
        decision is Accept ==> (r matches Some(crate::messages::HelperAssignmentResponse::Accepted {
            monitor_uuid,
            helper_peer_id,
        }) && monitor_uuid@ == request.monitor_uuid@ && helper_peer_id@ == own_peer_id@),
        decision matches HelperDecision::Reject(why) ==> (r matches Some(
            crate::messages::HelperAssignmentResponse::Rejected { monitor_uuid, reason },
        ) && monitor_uuid@ == request.monitor_uuid@ && (why == HelperRejection::NotPermitted ==> reason@
            == "Remote check is not permitted"@) && (why == HelperRejection::RateLimited ==> reason@
            == "Owner rate limit exceeded"@) && (why matches HelperRejection::AtCapacity(n) ==> reason@
            == "Helper at capacity ("@ + crate::json::decimal(n as nat) + "/10)"@)),
{
    match decision {
        HelperDecision::Ignore => None,
        HelperDecision::Accept(_) => Some(crate::messages::HelperAssignmentResponse::Accepted {
            monitor_uuid: request.monitor_uuid.clone(),
            helper_peer_id: own_peer_id.to_owned(),
        }),
        HelperDecision::Reject(why) => Some(crate::messages::HelperAssignmentResponse::Rejected {
            monitor_uuid: request.monitor_uuid.clone(),
            reason: rejection_reason(*why),
        }),
    }
}

/// An instant as nanoseconds since the Unix epoch, from whole seconds and the nanoseconds
/// past them.
pub open spec fn instant_nanos(secs: u64, nanos: u32) -> int {
    secs * 1_000_000_000 + nanos
}

/// An instant as nanoseconds since the Unix epoch.
fn instant_nanos_exec(secs: u64, nanos: u32) -> (r: u128)
    ensures
        r == instant_nanos(secs, nanos),
{
    (secs as u128) * 1_000_000_000 + (nanos as u128)
}

/// Whether a result stamped at instant `ts` is current at instant `now` (both in
/// nanoseconds): at most 30 s ahead and at most 300 s old.
pub open spec fn result_current(ts: int, now: int) -> bool {
    !(ts >= now && ts - now > MAX_FUTURE_SKEW_SECS * 1_000_000_000) && !(now >= ts && now - ts
        > MAX_RESULT_AGE_SECS * 1_000_000_000)
}

/// Whether a gossiped peer result is kept: its signature verified and it is current. The
/// result is stamped `timestamp` seconds and `timestamp_nanos` nanoseconds after the Unix
/// epoch, and `now` likewise.
pub fn accept_peer_result(verified: bool, timestamp: u64, timestamp_nanos: u32, now: u64, now_nanos: u32) -> (r:
    bool)
    ensures
        r == (verified && result_current(instant_nanos(timestamp, timestamp_nanos), instant_nanos(now, now_nanos))),
{
    let ts = instant_nanos_exec(timestamp, timestamp_nanos);
    let at = instant_nanos_exec(now, now_nanos);
    let ahead = ts >= at && ts - at > (MAX_FUTURE_SKEW_SECS as u128) * 1_000_000_000;
    let old = at >= ts && at - ts > (MAX_RESULT_AGE_SECS as u128) * 1_000_000_000;
    verified && !ahead && !old
}

/// Whether a gossiped peer result carries a signature that verifies: a 32-byte public key
/// under which the result's signature checks for the target it reports on.
pub fn peer_result_verified(public_key: &Option<Vec<u8>>, result: &crate::models::PeerResult, target: &str) -> (r: bool)
    ensures
        r == (public_key matches Some(k) && k@.len() == 32 && crate::signing::verify_result_verdict(*result, k@, target@)
            == Ok::<bool, crate::signing::CryptoError>(true)),
{
    match public_key {
        Some(k) => {
            if k.len() != 32 {
                return false;
            }
            let mut key: [u8; 32] = [0u8; 32];
            let mut i: usize = 0;
            while i < 32
                invariant
                    i <= 32,
                    k@.len() == 32,
                    forall|m: int| 0 <= m < i ==> key@[m] == k@[m],
                decreases 32 - i,
            {
                key[i] = k[i];
                i = i + 1;
            }
            assert(key@ =~= k@);
            match crate::signing::verify_result(result, &key, target) {
                Ok(b) => b,
                Err(_) => false,
            }
        },
        None => false,
    }
}

/// Whether a verified peer result concerns a monitor this node checks as well: an enabled
/// public monitor with the same target.
pub fn monitor_accepts_peer_result(monitor: &Option<crate::models::Monitor>, target: &str) -> (r: bool)
    ensures
        r == (monitor matches Some(m) && m.enabled && m.visibility == crate::models::MonitorVisibility::Public
            && m.target@ == target@),
{
    match monitor {
        Some(m) => m.enabled && m.is_public() && str_equal(m.target.as_str(), target),
        None => false,
    }
}

/// The 32-byte public key a peer id stands for: its hexadecimal decoding, when that is 32
/// bytes long.
pub fn peer_key_from_id(peer_id: &str) -> (r: Option<[u8; 32]>)
    ensures
        match r {
            Some(k) => crate::crypto::hex_decoded(vstd::utf8::encode_utf8(peer_id@)) == Some(k@),
            None => !(crate::crypto::hex_decoded(vstd::utf8::encode_utf8(peer_id@)) matches Some(b) && b.len() == 32),
        },
{
    match crate::crypto::hex_decode(peer_id) {
        Some(v) => {
            if v.len() != 32 {
                return None;
            }
            let mut key: [u8; 32] = [0u8; 32];
            let mut i: usize = 0;
            while i < 32
                invariant
                    i <= 32,
                    v@.len() == 32,
                    forall|m: int| 0 <= m < i ==> key@[m] == v@[m],
                decreases 32 - i,
            {
                key[i] = v[i];
                i = i + 1;
            }
            assert(key@ =~= v@);
            Some(key)
        },
        None => None,
    }
}

/// A result received from a peer is stored as an observation when it carries a signature
/// and a 32-byte key under which the signature verifies over the result's signed fields,
/// it is current at `now`, and this node checks the same public monitor (enabled, same
/// target).
pub open spec fn observation_taken(
    received: crate::messages::PeerResult,
    monitor: Option<crate::models::Monitor>,
    now: u64,
    now_nanos: u32,
) -> bool {
    &&& received.signature matches Some(sig)
    &&& received.public_key matches Some(k)
    &&& k@.len() == 32
    &&& crate::crypto::ed25519_key_decodes(k@)
    &&& sig@.len() == 64
    &&& crate::crypto::ed25519_signature_verifies(
        k@,
        crate::signing::check_result_message(received.result),
        sig@,
    )
    &&& result_current(
        instant_nanos(received.result.timestamp, received.result.timestamp_nanos),
        instant_nanos(now, now_nanos),
    )
    &&& monitor matches Some(m)
    &&& m.enabled
    &&& m.visibility == crate::models::MonitorVisibility::Public
    &&& m.target@ == received.result.target@
}

/// The observation to store from a result received from a peer, given the local monitor
/// with the result's id (if any) and the instant `now` seconds and `now_nanos` nanoseconds
/// after the Unix epoch: the stored form of the result, marked verified, when it is taken;
/// `None` otherwise.
pub fn peer_observation(
    received: &crate::messages::PeerResult,
    monitor: &Option<crate::models::Monitor>,
    now: u64,
    now_nanos: u32,
) -> (r: Option<crate::models::PeerResult>)
    ensures
        r is Some <==> observation_taken(*received, *monitor, now, now_nanos),
        r matches Some(x) ==> x.verified && (received.signature matches Some(sig) && crate::models::peer_result_from_received(
            crate::models::PeerResult { verified: false, ..x },
            *received,
            sig@,
        )),
{
    let mut stored = match crate::models::PeerResult::from_p2p_result(received) {
        Some(p) => p,
        None => return None,
    };
    let target = received.result.target.as_str();
    let verified = peer_result_verified(&received.public_key, &stored, target);
    proof {
        assert(crate::signing::peer_result_message(stored, target@) == crate::signing::check_result_message(
            received.result,
        ));
    }
    if !accept_peer_result(verified, received.result.timestamp, received.result.timestamp_nanos, now, now_nanos) {
        return None;
    }
    if !monitor_accepts_peer_result(monitor, target) {
        return None;
    }
    let ghost before = stored;
    stored.verified = true;
    assert(crate::models::PeerResult { verified: false, ..stored } == before);
    Some(stored)
}

/// Whether a result decrypted from a helper is kept: the sender is an assigned helper of
/// the monitor, the result is for the monitor the envelope names and for this node as
/// owner, the sender's transport id matches the result's signer, the signature verifies,
/// and the result, stamped `timestamp` seconds and `timestamp_nanos` nanoseconds after the
/// Unix epoch, is at most 300 s old at the instant `now`, `now_nanos` (and not from the future).
pub fn accept_helper_result(
    assigned_helper: bool,
    result_monitor: u128,
    envelope_monitor: u128,
    envelope_owner: &str,
    actor_id: &str,
    transport_matches: bool,
    signature_verified: bool,
    timestamp: u64,
    timestamp_nanos: u32,
    now: u64,
    now_nanos: u32,
) -> (r: bool)
    ensures
        r == (assigned_helper && result_monitor == envelope_monitor && envelope_owner@ == actor_id@ && transport_matches
            && signature_verified && instant_nanos(now, now_nanos) >= instant_nanos(timestamp, timestamp_nanos)
            && instant_nanos(now, now_nanos) - instant_nanos(timestamp, timestamp_nanos) <= 300_000_000_000),
{
    let ts = instant_nanos_exec(timestamp, timestamp_nanos);
    let at = instant_nanos_exec(now, now_nanos);
    assigned_helper && result_monitor == envelope_monitor && str_equal(envelope_owner, actor_id) && transport_matches
        && signature_verified && at >= ts && at - ts <= (MAX_RESULT_AGE_SECS as u128) * 1_000_000_000
}

/// Where a locally made result goes.
#[derive(Debug, Clone, Copy, PartialEq, Eq, Structural)]
pub enum LocalResultRoute {
    /// It was made for another node: encrypt it for the owner and send it back.
    ToOwner,
    /// Store it; share it with peers only when `share` holds.
    Store { share: bool },
}

/// Where a result goes: back to the owner when this node helps with the monitor;
/// otherwise it is stored, and shared only for a public monitor while the network is on.
pub fn route_local_result(
    helping: bool,
    network_enabled: bool,
    visibility: Option<crate::models::MonitorVisibility>,
) -> (r: LocalResultRoute)
    ensures
        helping ==> r == LocalResultRoute::ToOwner,
        !helping ==> r == (LocalResultRoute::Store {
            share: network_enabled && visibility == Some(crate::models::MonitorVisibility::Public),
        }),
{
    if helping {
        return LocalResultRoute::ToOwner;
    }
    let share = match visibility {
        Some(v) => network_enabled && v == crate::models::MonitorVisibility::Public,
        None => false,
    };
    LocalResultRoute::Store { share }
}

/// A running monitor task: which monitor, and whether it has finished.
#[derive(Debug, Clone, Copy, PartialEq, Eq, Structural)]
pub struct TaskState {
    pub id: u128,
    pub finished: bool,
}

/// The configuration of monitor `id` in a list (the first with that id).
pub open spec fn config_for(cfgs: Seq<crate::monitoring::MonitorConfig>, id: u128) -> Option<crate::monitoring::MonitorConfig>
    decreases cfgs.len(),
{
    if cfgs.len() == 0 {
        None
    } else if cfgs[0].id == id {
        Some(cfgs[0])
    } else {
        config_for(cfgs.skip(1), id)
    }
}

/// Whether two optional configurations are the same.
pub open spec fn same_opt_config(a: Option<crate::monitoring::MonitorConfig>, b: Option<crate::monitoring::MonitorConfig>) -> bool {
    match (a, b) {
        (None, None) => true,
        (Some(x), Some(y)) => crate::monitoring::same_config(x, y),
        _ => false,
    }
}

/// Whether a task is stopped on reload: it is not helping another node, and its monitor is
/// gone, its configuration changed, or it has finished.
pub open spec fn stops(
    t: TaskState,
    running: Seq<crate::monitoring::MonitorConfig>,
    new: Seq<crate::monitoring::MonitorConfig>,
    helping: Seq<u128>,
) -> bool {
    !helping.contains(t.id) && (config_for(new, t.id) is None || !same_opt_config(config_for(running, t.id), config_for(new, t.id))
        || t.finished)
}

/// The tasks stopped on reload, in order.
pub open spec fn stopped_ids(
    tasks: Seq<TaskState>,
    running: Seq<crate::monitoring::MonitorConfig>,
    new: Seq<crate::monitoring::MonitorConfig>,
    helping: Seq<u128>,
) -> Seq<u128>
    decreases tasks.len(),
{
    if tasks.len() == 0 {
        seq![]
    } else if stops(tasks.last(), running, new, helping) {
        stopped_ids(tasks.drop_last(), running, new, helping).push(tasks.last().id)
    } else {
        stopped_ids(tasks.drop_last(), running, new, helping)
    }
}

/// The tasks kept on reload, in order.
pub open spec fn kept_ids(
    tasks: Seq<TaskState>,
    running: Seq<crate::monitoring::MonitorConfig>,
    new: Seq<crate::monitoring::MonitorConfig>,
    helping: Seq<u128>,
) -> Seq<u128>
    decreases tasks.len(),
{
    if tasks.len() == 0 {
        seq![]
    } else if stops(tasks.last(), running, new, helping) {
        kept_ids(tasks.drop_last(), running, new, helping)
    } else {
        kept_ids(tasks.drop_last(), running, new, helping).push(tasks.last().id)
    }
}

/// The monitors to start on reload: those configured now with no task kept, in order.
pub open spec fn started_ids(new: Seq<crate::monitoring::MonitorConfig>, kept: Seq<u128>) -> Seq<u128>
    decreases new.len(),
{
    if new.len() == 0 {
        seq![]
    } else if kept.contains(new.last().id) {
        started_ids(new.drop_last(), kept)
    } else {
        started_ids(new.drop_last(), kept).push(new.last().id)
    }
}

/// The ids of configurations.
pub open spec fn config_ids(cfgs: Seq<crate::monitoring::MonitorConfig>) -> Seq<u128> {
    cfgs.map_values(|c: crate::monitoring::MonitorConfig| c.id)
}

/// The configuration of monitor `id`, if listed.
fn find_config(cfgs: &Vec<crate::monitoring::MonitorConfig>, id: u128) -> (r: Option<usize>)
    ensures
        match r {
            Some(i) => i < cfgs@.len() && cfgs@[i as int].id == id && config_for(cfgs@, id) == Some(cfgs@[i as int]),
            None => config_for(cfgs@, id) is None,
        },
{
    let mut i: usize = 0;
    assert(cfgs@.skip(0) =~= cfgs@);
    while i < cfgs.len()
        invariant
            i <= cfgs@.len(),
            config_for(cfgs@, id) == config_for(cfgs@.skip(i as int), id),
        decreases cfgs@.len() - i,
    {
        assert(cfgs@.skip(i as int).skip(1) =~= cfgs@.skip(i + 1));
        assert(cfgs@.skip(i as int)[0] == cfgs@[i as int]);
        if cfgs[i].id == id {
            return Some(i);
        }
        i = i + 1;
    }
    assert(cfgs@.skip(i as int).len() == 0);
    None
}

/// Which monitor tasks to stop and which to start when monitors are reloaded: a task that
/// is not helping another node stops when its monitor is no longer configured, its
/// configuration changed, or it finished; then every configured monitor without a kept
/// task starts.
pub fn plan_reload(
    running: &Vec<crate::monitoring::MonitorConfig>,
    tasks: &Vec<TaskState>,
    new: &Vec<crate::monitoring::MonitorConfig>,
    helping: &Vec<u128>,
) -> (r: (Vec<u128>, Vec<u128>))
    ensures
        r.0@ == stopped_ids(tasks@, running@, new@, helping@),
        r.1@ == started_ids(new@, kept_ids(tasks@, running@, new@, helping@)),
{
    let mut stop: Vec<u128> = Vec::new();
    let mut keep: Vec<u128> = Vec::new();
    let mut i: usize = 0;
    while i < tasks.len()
        invariant
            i <= tasks@.len(),
            stop@ == stopped_ids(tasks@.take(i as int), running@, new@, helping@),
            keep@ == kept_ids(tasks@.take(i as int), running@, new@, helping@),
        decreases tasks@.len() - i,
    {
        let t = tasks[i];
        proof {
            assert(tasks@.take(i + 1).drop_last() =~= tasks@.take(i as int));
            assert(tasks@.take(i + 1).last() == t);
        }
        let mut is_helping = false;
        let mut h: usize = 0;
        while h < helping.len()
            invariant
                h <= helping@.len(),
                is_helping == exists|j: int| 0 <= j < h && helping@[j] == t.id,
            decreases helping@.len() - h,
        {
            if helping[h] == t.id {
                is_helping = true;
            }
            h = h + 1;
        }
        assert(is_helping == helping@.contains(t.id));
        let stops_now = if is_helping {
            false
        } else {
            match find_config(new, t.id) {
                None => true,
                Some(ni) => {
                    let changed = match find_config(running, t.id) {
                        Some(ri) => !running[ri].same_as(&new[ni]),
                        None => true,
                    };
                    changed || t.finished
                },
            }
        };
        assert(stops_now == stops(t, running@, new@, helping@));
        if stops_now {
            stop.push(t.id);
        } else {
            keep.push(t.id);
        }
        i = i + 1;
    }
    assert(tasks@.take(tasks@.len() as int) =~= tasks@);
    let mut start: Vec<u128> = Vec::new();
    let mut k: usize = 0;
    while k < new.len()
        invariant
            k <= new@.len(),
            start@ == started_ids(new@.take(k as int), keep@),
        decreases new@.len() - k,
    {
        let id = new[k].id;
        proof {
            assert(new@.take(k + 1).drop_last() =~= new@.take(k as int));
            assert(new@.take(k + 1).last() == new@[k as int]);
        }
        let mut kept = false;
        let mut m: usize = 0;
        while m < keep.len()
            invariant
                m <= keep@.len(),
                kept == exists|j: int| 0 <= j < m && keep@[j] == id,
            decreases keep@.len() - m,
        {
            if keep[m] == id {
                kept = true;
            }
            m = m + 1;
        }
        assert(kept == keep@.contains(id));
        if !kept {
            start.push(id);
        }
        k = k + 1;
    }
    assert(new@.take(new@.len() as int) =~= new@);
    (stop, start)
}

proof fn lemma_kept_or_started(
    tasks: Seq<TaskState>,
    running: Seq<crate::monitoring::MonitorConfig>,
    new: Seq<crate::monitoring::MonitorConfig>,
    helping: Seq<u128>,
    kept: Seq<u128>,
)
    ensures
        forall|i: int| 0 <= i < new.len() ==> kept.contains(#[trigger] new[i].id) || started_ids(new, kept).contains(new[i].id),
    decreases new.len(),
{
    if new.len() > 0 {
        lemma_kept_or_started(tasks, running, new.drop_last(), helping, kept);
        let s0 = started_ids(new.drop_last(), kept);
        assert forall|i: int| 0 <= i < new.len() implies kept.contains(#[trigger] new[i].id) || started_ids(new, kept).contains(new[i].id) by {
            if i < new.len() - 1 {
                assert(new.drop_last()[i] == new[i]);
                if s0.contains(new[i].id) {
                    let j = choose|j: int| 0 <= j < s0.len() && s0[j] == new[i].id;
                    if !kept.contains(new.last().id) {
                        assert(started_ids(new, kept)[j] == new[i].id);
                    }
                }
            } else if !kept.contains(new[i].id) {
                assert(started_ids(new, kept)[s0.len() as int] == new[i].id);
            }
        }
    }
}

/// After a reload every configured monitor has a task: either its task was kept, or it is
/// started.
pub proof fn lemma_reload_runs_every_configured_monitor(
    tasks: Seq<TaskState>,
    running: Seq<crate::monitoring::MonitorConfig>,
    new: Seq<crate::monitoring::MonitorConfig>,
    helping: Seq<u128>,
)
    ensures
        forall|i: int| 0 <= i < new.len() ==> kept_ids(tasks, running, new, helping).contains(#[trigger] new[i].id)
            || started_ids(new, kept_ids(tasks, running, new, helping)).contains(new[i].id),
{
    lemma_kept_or_started(tasks, running, new, helping, kept_ids(tasks, running, new, helping));
}

} // verus!
