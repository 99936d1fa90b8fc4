use std::collections::VecDeque;
use vstd::prelude::*;

verus! {

/// The channels of an HTTP pool in two FIFO queues: those ready for a
/// request and those busy with one.
pub struct ChannelQueues<C> {
    ready: VecDeque<C>,
    busy: VecDeque<C>,
}

impl<C> ChannelQueues<C> {
    pub closed spec fn spec_ready(&self) -> Seq<C> {
        self.ready@
    }

    pub closed spec fn spec_busy(&self) -> Seq<C> {
        self.busy@
    }

    /// A pool whose channels all start ready, in the given order.
    pub fn new(channels: Vec<C>) -> (r: Self)
        ensures
            r.spec_ready() == channels@,
            r.spec_busy() == Seq::<C>::empty(),
    {
        let mut ready: VecDeque<C> = VecDeque::new();
        let mut rest = channels;
        let ghost all = rest@;
        while rest.len() > 0
            invariant
                ready@ + rest@ == all,
            decreases rest@.len(),
        {
            let c = rest.remove(0);
            ready.push_back(c);
            assert(ready@ + rest@ =~= all);
        }
        assert(ready@ =~= ready@ + rest@);
        ChannelQueues { ready, busy: VecDeque::new() }
    }

    /// The channel to use next: the head of the ready queue, or else the
    /// head of the busy queue, which the caller must wait on until it is
    /// ready (`true`).  `None` for a pool without channels.
    pub fn acquire(&mut self) -> (r: Option<(C, bool)>)
        ensures
            old(self).spec_ready().len() > 0 ==> r == Some((old(self).spec_ready()[0], false))
                && final(self).spec_ready() == old(self).spec_ready().drop_first()
                && final(self).spec_busy() == old(self).spec_busy(),
            old(self).spec_ready().len() == 0 && old(self).spec_busy().len() > 0 ==> r == Some(
                (old(self).spec_busy()[0], true),
            ) && final(self).spec_busy() == old(self).spec_busy().drop_first()
                && final(self).spec_ready() == old(self).spec_ready(),
            old(self).spec_ready().len() == 0 && old(self).spec_busy().len() == 0 ==> r is None
                && final(self).spec_ready() == old(self).spec_ready() && final(self).spec_busy()
                == old(self).spec_busy(),
    {
        match self.ready.pop_front() {
            Some(c) => {
                assert(self.ready@ =~= old(self).ready@.drop_first());
                Some((c, false))
            },
            None => match self.busy.pop_front() {
                Some(c) => {
                    assert(self.busy@ =~= old(self).busy@.drop_first());
                    Some((c, true))
                },
                None => None,
            },
        }
    }

    /// Gives a channel back at the tail of the ready queue.
    pub fn release(&mut self, c: C)
        ensures
            final(self).spec_ready() == old(self).spec_ready().push(c),
            final(self).spec_busy() == old(self).spec_busy(),
    {
        self.ready.push_back(c);
    }

    /// Puts a channel that is not ready at the tail of the busy queue.
    pub fn park(&mut self, c: C)
        ensures
            final(self).spec_busy() == old(self).spec_busy().push(c),
            final(self).spec_ready() == old(self).spec_ready(),
    {
        self.busy.push_back(c);
    }
}

} // verus!
