use std::collections::HashMap;
use vstd::prelude::*;

verus! {

broadcast use vstd::std_specs::hash::group_hash_axioms;

/// One subscription carried by a socket: where its values go, the request it
/// belongs to, and whether it ends with its first notification.
pub struct Subscription<S> {
    pub tx: S,
    pub payload: String,
    pub oneshot: bool,
    pub id: u64,
}

/// The bookkeeping of one socket, as maps: subscriptions awaiting their ack
/// (by local id), active ones (by remote id), notifications buffered before
/// their ack (by remote id), and every ack that activated a subscription
/// (remote id to local id).
pub struct TableModel<S> {
    pub inflights: Map<u64, Subscription<S>>,
    pub subscriptions: Map<u64, Subscription<S>>,
    pub lost: Map<u64, Seq<u8>>,
    pub acked: Map<u64, u64>,
}

/// Awaiting subscriptions are keyed by their own local id, and every active
/// subscription was activated by an ack of its own local id.
pub open spec fn model_wf<S>(m: TableModel<S>) -> bool {
    &&& forall|l: u64| #[trigger] m.inflights.contains_key(l) ==> m.inflights[l].id == l
    &&& forall|r: u64| #[trigger]
        m.subscriptions.contains_key(r) ==> m.acked.contains_key(r) && m.acked[r]
            == m.subscriptions[r].id
}

proof fn lemma_wf_frame<S>(a: TableModel<S>, b: TableModel<S>)
    requires
        model_wf(a),
        a.inflights == b.inflights,
        a.subscriptions == b.subscriptions,
        a.acked == b.acked,
    ensures
        model_wf(b),
{
    assert forall|l: u64| #[trigger] b.inflights.contains_key(l) implies b.inflights[l].id == l by {
        assert(a.inflights.contains_key(l));
    }
    assert forall|r: u64| #[trigger] b.subscriptions.contains_key(r) implies b.acked.contains_key(r)
        && b.acked[r] == b.subscriptions[r].id by {
        assert(a.subscriptions.contains_key(r));
    }
}

/// The model after a subscription is submitted.
pub open spec fn submit_spec<S>(m: TableModel<S>, sub: Subscription<S>) -> TableModel<S> {
    TableModel { inflights: m.inflights.insert(sub.id, sub), ..m }
}

/// The model after the ack `{id: local, result: remote}`: an awaiting
/// subscription becomes active under `remote`; an ack for nothing is ignored.
pub open spec fn ack_spec<S>(m: TableModel<S>, local: u64, remote: u64) -> TableModel<S> {
    if m.inflights.contains_key(local) {
        TableModel {
            inflights: m.inflights.remove(local),
            subscriptions: m.subscriptions.insert(remote, m.inflights[local]),
            lost: m.lost.remove(remote),
            acked: m.acked.insert(remote, local),
        }
    } else {
        m
    }
}

/// The notification buffered for `remote` that an ack hands back for
/// processing, if any.
pub open spec fn ack_replay<S>(m: TableModel<S>, local: u64, remote: u64) -> Option<Seq<u8>> {
    if m.inflights.contains_key(local) && m.lost.contains_key(remote) {
        Some(m.lost[remote])
    } else {
        None
    }
}

/// Whether a notification for `remote` goes to an active subscription.
pub open spec fn routes<S>(m: TableModel<S>, remote: u64) -> bool {
    m.subscriptions.contains_key(remote)
}

/// The model after a notification: one for a subscription that was never
/// acknowledged is buffered under its remote id until its ack; one for a
/// subscription that was acknowledged and has ended is dropped.
pub open spec fn notify_spec<S>(m: TableModel<S>, remote: u64, payload: Seq<u8>) -> TableModel<S> {
    if routes(m, remote) || m.acked.contains_key(remote) {
        m
    } else {
        TableModel { lost: m.lost.insert(remote, payload), ..m }
    }
}

/// The model after a value was handed to subscription `remote`: a one-shot
/// subscription, or one whose receiver is gone, ends.
pub open spec fn delivered_spec<S>(m: TableModel<S>, remote: u64, sent: bool) -> TableModel<S> {
    if m.subscriptions.contains_key(remote) && (!sent || m.subscriptions[remote].oneshot) {
        TableModel { subscriptions: m.subscriptions.remove(remote), ..m }
    } else {
        m
    }
}

/// Subscription bookkeeping of one WebSocket connection.
pub struct SubscriptionTable<S> {
    inflights: HashMap<u64, Subscription<S>>,
    subscriptions: HashMap<u64, Subscription<S>>,
    lost: HashMap<u64, Vec<u8>>,
    acked: HashMap<u64, u64>,
}

pub open spec fn lost_view(m: Map<u64, Vec<u8>>) -> Map<u64, Seq<u8>> {
    Map::new(|k: u64| m.contains_key(k), |k: u64| m[k]@)
}

impl<S> SubscriptionTable<S> {
    pub closed spec fn model(&self) -> TableModel<S> {
        TableModel {
            inflights: self.inflights@,
            subscriptions: self.subscriptions@,
            lost: lost_view(self.lost@),
            acked: self.acked@,
        }
    }

    pub open spec fn wf(&self) -> bool {
        model_wf(self.model())
    }

    /// A table with no subscription.
    pub fn new() -> (r: Self)
        ensures
            r.wf(),
            r.model().inflights == Map::<u64, Subscription<S>>::empty(),
            r.model().subscriptions == Map::<u64, Subscription<S>>::empty(),
            r.model().lost == Map::<u64, Seq<u8>>::empty(),
    {
        let r = SubscriptionTable {
            inflights: HashMap::new(),
            subscriptions: HashMap::new(),
            lost: HashMap::new(),
            acked: HashMap::new(),
        };
        assert(r.model().lost =~= Map::<u64, Seq<u8>>::empty());
        r
    }

    /// Stores a subscription whose request was written to the socket; it
    /// awaits its ack under its local id.
    pub fn submit(&mut self, sub: Subscription<S>)
        requires
            old(self).wf(),
        ensures
            final(self).wf(),
            final(self).model() == submit_spec(old(self).model(), sub),
    {
        let ghost sid = sub.id;
        self.inflights.insert(sub.id, sub);
        proof {
            let a = old(self).model();
            let b = self.model();
            assert forall|l: u64| #[trigger] b.inflights.contains_key(l) implies b.inflights[l].id
                == l by {
                if l != sid {
                    assert(a.inflights.contains_key(l));
                }
            }
            assert forall|r: u64| #[trigger] b.subscriptions.contains_key(r) implies b.acked.contains_key(
                r,
            ) && b.acked[r] == b.subscriptions[r].id by {
                assert(a.subscriptions.contains_key(r));
            }
        }
    }

    /// Handles the ack `{id: local, result: remote}` and returns the
    /// notification that arrived for `remote` before it, to be processed now.
    pub fn on_ack(&mut self, local: u64, remote: u64) -> (r: Option<Vec<u8>>)
        requires
            old(self).wf(),
        ensures
            final(self).wf(),
            final(self).model() == ack_spec(old(self).model(), local, remote),
            r matches Some(p) ==> ack_replay(old(self).model(), local, remote) == Some(p@),
            r is None ==> ack_replay(old(self).model(), local, remote) is None,
    {
        let sub = match self.inflights.remove(&local) {
            Some(sub) => sub,
            None => {
                assert(self.inflights@ =~= old(self).inflights@);
                proof {
                    lemma_wf_frame(old(self).model(), self.model());
                }
                return None;
            },
        };
        self.subscriptions.insert(remote, sub);
        self.acked.insert(remote, local);
        let r = self.lost.remove(&remote);
        assert(self.model().lost =~= lost_view(old(self).lost@).remove(remote));
        proof {
            let a = old(self).model();
            let b = self.model();
            assert forall|l: u64| #[trigger] b.inflights.contains_key(l) implies b.inflights[l].id
                == l by {
                assert(a.inflights.contains_key(l));
            }
            assert forall|k: u64| #[trigger] b.subscriptions.contains_key(k) implies b.acked.contains_key(
                k,
            ) && b.acked[k] == b.subscriptions[k].id by {
                if k != remote {
                    assert(a.subscriptions.contains_key(k));
                } else {
                    assert(a.inflights.contains_key(local));
                }
            }
        }
        r
    }

    /// Handles a notification for `remote`: returns whether an active
    /// subscription takes it.  If none does, the payload is buffered until the
    /// subscription's ack when `remote` was never acknowledged, and dropped
    /// when its subscription has already ended.
    pub fn on_notification(&mut self, remote: u64, payload: Vec<u8>) -> (r: bool)
        requires
            old(self).wf(),
        ensures
            final(self).wf(),
            r == routes(old(self).model(), remote),
            final(self).model() == notify_spec(old(self).model(), remote, payload@),
    {
        if self.subscriptions.contains_key(&remote) {
            true
        } else if self.acked.contains_key(&remote) {
            false
        } else {
            let ghost p = payload@;
            self.lost.insert(remote, payload);
            assert(self.model().lost =~= lost_view(old(self).lost@).insert(remote, p));
            proof {
                lemma_wf_frame(old(self).model(), self.model());
            }
            false
        }
    }

    /// The active subscription under `remote`.
    pub fn subscription(&self, remote: u64) -> (r: Option<&Subscription<S>>)
        requires
            self.wf(),
        ensures
            r matches Some(s) ==> self.model().subscriptions.contains_key(remote) && *s
                == self.model().subscriptions[remote] && self.model().acked.contains_key(remote)
                && self.model().acked[remote] == s.id,
            r is None ==> !self.model().subscriptions.contains_key(remote),
    {
        self.subscriptions.get(&remote)
    }

    /// Notes that a value was handed to subscription `remote` (`sent` is
    /// false when its receiver is gone).
    pub fn on_delivered(&mut self, remote: u64, sent: bool)
        requires
            old(self).wf(),
        ensures
            final(self).wf(),
            final(self).model() == delivered_spec(old(self).model(), remote, sent),
    {
        let end = match self.subscriptions.get(&remote) {
            Some(sub) => !sent || sub.oneshot,
            None => false,
        };
        if end {
            self.subscriptions.remove(&remote);
        }
        assert(self.model() == delivered_spec(old(self).model(), remote, sent));
    }

    /// Number of notifications buffered before their ack.
    pub fn buffered_count(&self) -> (r: usize)
        ensures
            r == self.model().lost.len(),
    {
        proof {
            assert(self.model().lost.dom() =~= self.lost@.dom());
        }
        self.lost.len()
    }
}

/// Every step keeps each active subscription tied to the ack that activated
/// it, so a notification is only ever routed to a subscription whose remote id
/// was acknowledged for its own local id.
pub proof fn law_no_unacknowledged_delivery<S>(
    m: TableModel<S>,
    sub: Subscription<S>,
    local: u64,
    remote: u64,
    payload: Seq<u8>,
    sent: bool,
)
    requires
        model_wf(m),
    ensures
        model_wf(submit_spec(m, sub)),
        model_wf(ack_spec(m, local, remote)),
        model_wf(notify_spec(m, remote, payload)),
        model_wf(delivered_spec(m, remote, sent)),
        routes(m, remote) ==> m.acked.contains_key(remote) && m.acked[remote]
            == m.subscriptions[remote].id,
{
}

/// A notification that arrives before its ack is buffered, handed back by the
/// ack, and then routed to the subscription: it is never dropped.
pub proof fn law_early_notification_delivered<S>(
    m: TableModel<S>,
    local: u64,
    remote: u64,
    payload: Seq<u8>,
)
    requires
        model_wf(m),
        m.inflights.contains_key(local),
        !m.acked.contains_key(remote),
    ensures
        !routes(m, remote),
        ack_replay(notify_spec(m, remote, payload), local, remote) == Some(payload),
        routes(ack_spec(notify_spec(m, remote, payload), local, remote), remote),
        ack_spec(notify_spec(m, remote, payload), local, remote).subscriptions[remote]
            == m.inflights[local],
{
}

/// After a one-shot subscription took its first notification, a second one
/// for it is dropped: it is not routed, and nothing is kept of it.
pub proof fn law_oneshot_second_dropped<S>(
    m: TableModel<S>,
    remote: u64,
    first: Seq<u8>,
    second: Seq<u8>,
    sent: bool,
)
    requires
        model_wf(m),
        m.subscriptions.contains_key(remote),
        m.subscriptions[remote].oneshot,
    ensures
        routes(m, remote),
        ({
            let after = delivered_spec(notify_spec(m, remote, first), remote, sent);
            &&& !routes(after, remote)
            &&& notify_spec(after, remote, second) == after
        }),
{
}

/// Hands out the connections of a pool in turn.
pub struct WebsocketPool<C> {
    connections: Vec<C>,
    next: usize,
}

impl<C> WebsocketPool<C> {
    pub closed spec fn spec_connections(&self) -> Seq<C> {
        self.connections@
    }

    pub closed spec fn spec_next(&self) -> nat {
        self.next as nat
    }

    pub open spec fn wf(&self) -> bool {
        self.spec_next() < self.spec_connections().len()
    }

    /// A pool over `connections`, starting with the first.
    pub fn new(connections: Vec<C>) -> (r: Self)
        requires
            connections@.len() > 0,
        ensures
            r.wf(),
            r.spec_connections() == connections@,
            r.spec_next() == 0,
    {
        WebsocketPool { connections, next: 0 }
    }

    /// Index of the connection to use now; the next call gets the following
    /// one, round robin.
    pub fn connection(&mut self) -> (r: usize)
        requires
            old(self).wf(),
        ensures
            final(self).wf(),
            r == old(self).spec_next(),
            final(self).spec_next() == (old(self).spec_next() + 1) % old(
                self,
            ).spec_connections().len(),
            final(self).spec_connections() == old(self).spec_connections(),
    {
        let i = self.next;
        let n = self.connections.len();
        self.next = (i + 1) % n;
        i
    }

    /// The connection at index `i`.
    pub fn get(&self, i: usize) -> (r: &C)
        requires
            i < self.spec_connections().len(),
        ensures
            *r == self.spec_connections()[i as int],
    {
        &self.connections[i]
    }
}

} // verus!
