use std::collections::HashMap;
use vstd::prelude::*;

use crate::stats::{summary_of, zero_stats, ObservationsStats, StreamingStats, MAX_OBSERVATIONS, RESERVOIR_SIZE};

verus! {

broadcast use vstd::std_specs::hash::group_hash_axioms;

/// A request that waits for its confirmation: when it was sent, and where the
/// confirmed value is to be handed on, if anywhere.
pub struct PendingConfirmation<S> {
    pub start_us: u64,
    pub tx: Option<S>,
}

/// Latency in microseconds between `start` and `now` (saturating).
pub open spec fn latency_us(start: u64, now: u64) -> u32 {
    if now <= start {
        0
    } else if now - start >= u32::MAX {
        u32::MAX
    } else {
        (now - start) as u32
    }
}

/// The latencies after an observation of `id` at time `now`: one sample more
/// when `id` was pending, none otherwise.
pub open spec fn recorded<S>(
    pending: Map<u64, PendingConfirmation<S>>,
    lat: Seq<u32>,
    id: u64,
    now: u64,
) -> Seq<u32> {
    if pending.contains_key(id) && lat.len() < MAX_OBSERVATIONS {
        lat.push(latency_us(pending[id].start_us, now))
    } else {
        lat
    }
}

/// The pending map once every id of `ids` has been settled, by an
/// observation or by a removal.
pub open spec fn settle_all<S>(pending: Map<u64, PendingConfirmation<S>>, ids: Seq<u64>) -> Map<
    u64,
    PendingConfirmation<S>,
>
    decreases ids.len(),
{
    if ids.len() == 0 {
        pending
    } else {
        settle_all(pending, ids.drop_last()).remove(ids.last())
    }
}

/// Tracks the requests of one kind that await a confirmation and the
/// latencies of those that got one.
pub struct Confirmations<S> {
    pending: HashMap<u64, PendingConfirmation<S>>,
    latencies: StreamingStats,
}

impl<S> Confirmations<S> {
    /// The requests that await a confirmation, by id.
    pub closed spec fn pending_map(&self) -> Map<u64, PendingConfirmation<S>> {
        self.pending@
    }

    /// Every latency recorded so far, in microseconds.
    pub closed spec fn latencies(&self) -> Seq<u32> {
        self.latencies@
    }

    /// The latencies held for percentiles.
    pub closed spec fn sample(&self) -> Seq<u32> {
        self.latencies.sample()
    }

    pub closed spec fn wf(&self) -> bool {
        &&& self.latencies.wf()
        &&& self.latencies.spec_capacity() == RESERVOIR_SIZE
    }

    /// A well-formed tracker keeps at most `RESERVOIR_SIZE` latencies for
    /// percentiles, however many it has recorded.
    pub proof fn lemma_sample_bounded(&self)
        requires
            self.wf(),
        ensures
            self.sample().len() <= RESERVOIR_SIZE,
    {
        self.latencies.lemma_sample_bounded();
    }

    /// An empty tracker.
    pub fn new() -> (r: Self)
        ensures
            r.wf(),
            r.sample().len() <= RESERVOIR_SIZE,
            r.pending_map() == Map::<u64, PendingConfirmation<S>>::empty(),
            r.latencies() == Seq::<u32>::empty(),
    {
        Confirmations { pending: HashMap::new(), latencies: StreamingStats::new(RESERVOIR_SIZE) }
    }

    /// Starts tracking request `id`, sent at `now_us`.
    pub fn track(&mut self, id: u64, now_us: u64, tx: Option<S>)
        requires
            old(self).wf(),
        ensures
            final(self).wf(),
            final(self).sample().len() <= RESERVOIR_SIZE,
            final(self).pending_map() == old(self).pending_map().insert(
                id,
                PendingConfirmation { start_us: now_us, tx },
            ),
            final(self).latencies() == old(self).latencies(),
    {
        self.pending.insert(id, PendingConfirmation { start_us: now_us, tx });
        proof {
            self.lemma_sample_bounded();
        }
    }

    /// Records the confirmation of `id` at `now_us`.  Only the first
    /// confirmation of a pending id counts: it leaves the pending map, its
    /// latency is recorded and its hand-off end, if any, is returned.  A
    /// confirmation of an id that is not pending changes nothing.
    pub fn observe(&mut self, id: u64, now_us: u64) -> (r: Option<S>)
        requires
            old(self).wf(),
        ensures
            final(self).wf(),
            final(self).sample().len() <= RESERVOIR_SIZE,
            final(self).pending_map() == old(self).pending_map().remove(id),
            final(self).latencies() == recorded(
                old(self).pending_map(),
                old(self).latencies(),
                id,
                now_us,
            ),
            old(self).pending_map().contains_key(id) ==> r == old(self).pending_map()[id].tx,
            !old(self).pending_map().contains_key(id) ==> r is None,
    {
        let r = match self.pending.remove(&id) {
            None => None,
            Some(p) => {
                let took: u32 = if now_us <= p.start_us {
                    0
                } else if now_us - p.start_us >= u32::MAX as u64 {
                    u32::MAX
                } else {
                    (now_us - p.start_us) as u32
                };
                self.latencies.record(took);
                p.tx
            },
        };
        proof {
            self.lemma_sample_bounded();
        }
        r
    }

    /// Drops request `id` without recording anything (its confirmation did
    /// not come in time).
    pub fn remove(&mut self, id: u64)
        requires
            old(self).wf(),
        ensures
            final(self).wf(),
            final(self).sample().len() <= RESERVOIR_SIZE,
            final(self).pending_map() == old(self).pending_map().remove(id),
            final(self).latencies() == old(self).latencies(),
    {
        self.pending.remove(&id);
        proof {
            self.lemma_sample_bounded();
        }
    }

    /// Whether request `id` still awaits its confirmation.
    pub fn is_pending(&self, id: u64) -> (r: bool)
        ensures
            r == self.pending_map().contains_key(id),
    {
        self.pending.contains_key(&id)
    }

    /// Number of requests that await a confirmation.
    pub fn pending_count(&self) -> (r: usize)
        ensures
            r == self.pending_map().len(),
    {
        self.pending.len()
    }

    /// The summary of the recorded latencies.
    pub open spec fn spec_finalize(&self) -> ObservationsStats {
        if self.latencies().len() == 0 {
            zero_stats()
        } else {
            summary_of(self.latencies(), self.sample(), false)
        }
    }

    /// Summary of the recorded latencies.
    pub fn finalize(&self) -> (r: ObservationsStats)
        requires
            self.wf(),
        ensures
            self.latencies().len() == 0 ==> r == zero_stats(),
            self.latencies().len() > 0 ==> r == summary_of(self.latencies(), self.sample(), false),
            r == self.spec_finalize(),
    {
        self.latencies.finalize(false)
    }
}

/// Once a pending id has been observed it is no longer pending, and any later
/// confirmation of it records nothing: each id yields at most one sample.
pub proof fn law_observed_once<S>(
    pending: Map<u64, PendingConfirmation<S>>,
    lat: Seq<u32>,
    id: u64,
    t1: u64,
    t2: u64,
)
    ensures
        !pending.remove(id).contains_key(id),
        recorded(pending.remove(id), recorded(pending, lat, id, t1), id, t2) == recorded(
            pending,
            lat,
            id,
            t1,
        ),
        recorded(pending, lat, id, t1).len() <= lat.len() + 1,
{
}

/// When every pending id is settled, by an observation or by a removal on
/// timeout, nothing is left pending.
pub proof fn law_settled_leaves_nothing_pending<S>(
    pending: Map<u64, PendingConfirmation<S>>,
    ids: Seq<u64>,
)
    requires
        forall|k: u64| pending.contains_key(k) ==> ids.contains(k),
    ensures
        settle_all(pending, ids) == Map::<u64, PendingConfirmation<S>>::empty(),
{
    lemma_settle_all_keys(pending, ids);
    assert(settle_all(pending, ids) =~= Map::<u64, PendingConfirmation<S>>::empty());
}

proof fn lemma_settle_all_keys<S>(pending: Map<u64, PendingConfirmation<S>>, ids: Seq<u64>)
    ensures
        forall|k: u64| #[trigger]
            settle_all(pending, ids).contains_key(k) <==> pending.contains_key(k) && !ids.contains(
                k,
            ),
    decreases ids.len(),
{
    if ids.len() > 0 {
        lemma_settle_all_keys(pending, ids.drop_last());
        assert forall|k: u64| #[trigger]
            settle_all(pending, ids).contains_key(k) <==> pending.contains_key(k) && !ids.contains(
                k,
            ) by {
            let prev = ids.drop_last();
            assert(settle_all(pending, prev).contains_key(k) <==> pending.contains_key(k)
                && !prev.contains(k));
            assert(settle_all(pending, ids) == settle_all(pending, prev).remove(ids.last()));
            if prev.contains(k) {
                let j = choose|j: int| 0 <= j < prev.len() && prev[j] == k;
                assert(ids[j] == k);
            }
            if ids.contains(k) && k != ids.last() {
                let j = choose|j: int| 0 <= j < ids.len() && ids[j] == k;
                assert(j != ids.len() - 1);
                assert(prev[j] == k);
            }
            if k == ids.last() {
                assert(ids[ids.len() - 1] == k);
            }
        }
    }
}

} // verus!
