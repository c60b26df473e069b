//! Gossip topic names for distributed monitoring, and the set of subscribed topics.
use vstd::prelude::*;
use crate::text::{concat_str, str_equal, to_owned_string};

verus! {

/// The name of the topic of an owner's private results.
pub open spec fn private_results_topic(owner_peer_id: Seq<char>) -> Seq<char> {
    "/uppe/private-results/"@ + owner_peer_id + "/v1"@
}

/// The name of the topic of an owner's sync completion notices.
pub open spec fn sync_completion_topic(owner_peer_id: Seq<char>) -> Seq<char> {
    "/uppe/sync-completion/"@ + owner_peer_id + "/v1"@
}

/// Gossip topics for Uppe monitoring (strings the network layer turns into topics).
#[derive(Debug)]
pub struct UppeTopic;

impl UppeTopic {
    /// Topic for public monitor consensus (proposals, votes, admissions).
    pub fn public_monitors() -> (r: String)
        ensures
            r@ == "/uppe/public-monitors/v1"@,
    {
        to_owned_string("/uppe/public-monitors/v1")
    }

    /// Topic for orchestration votes (which peer checks which monitor).
    pub fn orchestration() -> (r: String)
        ensures
            r@ == "/uppe/orchestration/v1"@,
    {
        to_owned_string("/uppe/orchestration/v1")
    }

    /// Topic for encrypted private results: each owner has its own,
    /// `/uppe/private-results/{owner_peer_id}/v1`.
    pub fn private_results(owner_peer_id: &str) -> (r: String)
        ensures
            r@ == private_results_topic(owner_peer_id@),
    {
        let a = concat_str("/uppe/private-results/", owner_peer_id);
        concat_str(a.as_str(), "/v1")
    }

    /// Topic for sync completion notifications, `/uppe/sync-completion/{owner_peer_id}/v1`.
    pub fn sync_completion(owner_peer_id: &str) -> (r: String)
        ensures
            r@ == sync_completion_topic(owner_peer_id@),
    {
        let a = concat_str("/uppe/sync-completion/", owner_peer_id);
        concat_str(a.as_str(), "/v1")
    }

    /// Topic for DHT replication coordination.
    pub fn dht_replication() -> (r: String)
        ensures
            r@ == "/uppe/dht-replication/v1"@,
    {
        to_owned_string("/uppe/dht-replication/v1")
    }

    /// Topic for peer reputation updates.
    pub fn reputation() -> (r: String)
        ensures
            r@ == "/uppe/reputation/v1"@,
    {
        to_owned_string("/uppe/reputation/v1")
    }

    /// Topic for helper assignments (private monitor orchestration).
    pub fn helper_assignments() -> (r: String)
        ensures
            r@ == "/uppe/helper-assignments/v1"@,
    {
        to_owned_string("/uppe/helper-assignments/v1")
    }
}

/// Different owners have different private-result topics.
pub proof fn lemma_private_topics_distinct(a: Seq<char>, b: Seq<char>)
    requires
        a != b,
    ensures
        private_results_topic(a) != private_results_topic(b),
{
    let p = "/uppe/private-results/"@;
    let s = "/v1"@;
    if private_results_topic(a) == private_results_topic(b) {
        let ta = private_results_topic(a);
        assert((p + a + s).len() == (p + b + s).len());
        assert(a.len() == b.len());
        assert forall|i: int| 0 <= i < a.len() implies a[i] == b[i] by {
            assert(ta[p.len() + i] == a[i]);
            assert(private_results_topic(b)[p.len() + i] == b[i]);
        }
        assert(a =~= b);
    }
}

/// The topics this node is subscribed to, each once, in the order of subscription.
#[derive(Debug)]
pub struct TopicManager {
    subscribed: Vec<String>,
}

/// The characters of each string, in order.
pub open spec fn string_views(v: Seq<String>) -> Seq<Seq<char>> {
    v.map_values(|t: String| t@)
}

/// No topic occurs twice.
pub open spec fn no_duplicates(s: Seq<Seq<char>>) -> bool {
    forall|i: int, j: int| 0 <= i < j < s.len() ==> s[i] != s[j]
}

impl TopicManager {
    /// The subscribed topics in order.
    pub closed spec fn topics(&self) -> Seq<Seq<char>> {
        string_views(self.subscribed@)
    }

    /// The manager invariant: no topic is listed twice.
    pub open spec fn wf(&self) -> bool {
        no_duplicates(self.topics())
    }

    /// A manager subscribed to nothing.
    pub fn new() -> (r: TopicManager)
        ensures
            r.wf(),
            r.topics().len() == 0,
    {
        let r = TopicManager { subscribed: Vec::new() };
        assert(r.topics() =~= seq![]);
        r
    }

    fn position(&self, topic: &str) -> (r: Option<usize>)
        ensures
            r matches Some(i) ==> i < self.topics().len() && self.topics()[i as int] == topic@,
            r is None ==> !self.topics().contains(topic@),
    {
        let mut i: usize = 0;
        while i < self.subscribed.len()
            invariant
                i <= self.subscribed@.len(),
                forall|j: int| 0 <= j < i ==> self.topics()[j] != topic@,
            decreases self.subscribed@.len() - i,
        {
            if str_equal(self.subscribed[i].as_str(), topic) {
                return Some(i);
            }
            i = i + 1;
        }
        None
    }

    /// Subscribe to a topic (no change when already subscribed).
    pub fn subscribe(&mut self, topic: String)
        requires
            old(self).wf(),
        ensures
            final(self).wf(),
            final(self).topics() == subscribed(old(self).topics(), topic@),
    {
        let ghost v = self.topics();
        if self.position(topic.as_str()).is_none() {
            let ghost t = topic@;
            self.subscribed.push(topic);
            assert(self.topics() =~= v.push(t));
            proof {
                let u = self.topics();
                assert forall|i: int, j: int| 0 <= i < j < u.len() implies u[i] != u[j] by {
                    if j == v.len() {
                        assert(u[i] == v[i]);
                        if v[i] == t {
                            assert(v.contains(t));
                        }
                    }
                }
            }
        }
    }

    /// Unsubscribe from a topic (no change when not subscribed).
    pub fn unsubscribe(&mut self, topic: &str)
        requires
            old(self).wf(),
        ensures
            final(self).wf(),
            final(self).topics() == unsubscribed(old(self).topics(), topic@),
    {
        let ghost v = self.topics();
        match self.position(topic) {
            Some(i) => {
                self.subscribed.remove(i);
                assert(self.topics() =~= v.remove(i as int));
                proof {
                    lemma_index_of_distinct(v, i as int);
                    lemma_remove_keeps_distinct(v, i as int);
                }
            },
            None => {},
        }
    }

    /// Whether subscribed to a topic.
    pub fn is_subscribed(&self, topic: &str) -> (r: bool)
        ensures
            r == self.topics().contains(topic@),
    {
        self.position(topic).is_some()
    }

    /// All subscribed topics, in the order of subscription.
    pub fn list_subscribed(&self) -> (r: Vec<String>)
        ensures
            string_views(r@) == self.topics(),
    {
        let mut out: Vec<String> = Vec::new();
        let mut i: usize = 0;
        while i < self.subscribed.len()
            invariant
                i <= self.subscribed@.len(),
                string_views(out@) == self.topics().take(i as int),
            decreases self.subscribed@.len() - i,
        {
            let ghost before = out@;
            let t = self.subscribed[i].clone();
            out.push(t);
            proof {
                assert(string_views(out@) =~= string_views(before).push(self.subscribed@[i as int]@));
                assert(self.topics()[i as int] == self.subscribed@[i as int]@);
                assert(self.topics().take(i + 1) =~= self.topics().take(i as int).push(self.topics()[i as int]));
            }
            i = i + 1;
        }
        assert(self.topics().take(self.topics().len() as int) =~= self.topics());
        out
    }
}

impl Default for TopicManager {
    fn default() -> (r: TopicManager)
        ensures
            r.wf(),
            r.topics().len() == 0,
    {
        TopicManager::new()
    }
}

/// `s` without topic `t`: the one occurrence removed, if there is one.
pub open spec fn unsubscribed(s: Seq<Seq<char>>, t: Seq<char>) -> Seq<Seq<char>> {
    if s.contains(t) {
        s.remove(s.index_of(t))
    } else {
        s
    }
}

/// `s` with topic `t` added at the end unless it is already there.
pub open spec fn subscribed(s: Seq<Seq<char>>, t: Seq<char>) -> Seq<Seq<char>> {
    if s.contains(t) {
        s
    } else {
        s.push(t)
    }
}

proof fn lemma_index_of_distinct(s: Seq<Seq<char>>, i: int)
    requires
        no_duplicates(s),
        0 <= i < s.len(),
    ensures
        s.index_of(s[i]) == i,
{
    assert(s.contains(s[i]));
    let j = s.index_of(s[i]);
    assert(0 <= j < s.len() && s[j] == s[i]);
}

proof fn lemma_remove_keeps_distinct(s: Seq<Seq<char>>, i: int)
    requires
        no_duplicates(s),
        0 <= i < s.len(),
    ensures
        no_duplicates(s.remove(i)),
        !s.remove(i).contains(s[i]),
{
    let r = s.remove(i);
    assert forall|a: int, b: int| 0 <= a < b < r.len() implies r[a] != r[b] by {
        let a2 = if a < i { a } else { a + 1 };
        let b2 = if b < i { b } else { b + 1 };
        assert(r[a] == s[a2] && r[b] == s[b2]);
    }
    if r.contains(s[i]) {
        let a = choose|a: int| 0 <= a < r.len() && r[a] == s[i];
        let a2 = if a < i { a } else { a + 1 };
        assert(r[a] == s[a2]);
    }
}

/// Subscribing to a topic and then unsubscribing from it leaves it unsubscribed and the
/// other subscriptions as they were before.
pub proof fn lemma_unsubscribe_after_subscribe(before: Seq<Seq<char>>, topic: Seq<char>)
    requires
        no_duplicates(before),
    ensures
        subscribed(before, topic).contains(topic),
        !unsubscribed(subscribed(before, topic), topic).contains(topic),
        unsubscribed(subscribed(before, topic), topic) == unsubscribed(before, topic),
{
    let after = subscribed(before, topic);
    if before.contains(topic) {
        let i = before.index_of(topic);
        lemma_remove_keeps_distinct(before, i);
    } else {
        assert(after[before.len() as int] == topic);
        assert(after.contains(topic));
        let i = after.index_of(topic);
        if i < before.len() {
            assert(before[i] == topic);
        }
        assert(i == before.len());
        assert(after.remove(i) =~= before);
    }
}

} // verus!
