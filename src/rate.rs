use vstd::prelude::*;

use crate::stats::{stats_of, ObservationsStats};

verus! {

/// Length of one pacing epoch, in milliseconds.
pub const EPOCH_MS: u64 = 1000;

/// Latest clock reading, in milliseconds, that the governor accepts.
pub const MAX_CLOCK_MS: u64 = 18446744073709550615;

/// The pacing state of a governor.
pub struct RateState {
    /// Permits issued in the current epoch.
    pub count: u32,
    /// Target permits per second.
    pub rate: u32,
    /// Start of the current epoch.
    pub epoch_ms: u64,
    /// Time at which the last permit was due.
    pub last_permit_ms: u64,
}

/// Milliseconds between the epoch start and `now` (0 for a clock reading
/// before it).
pub open spec fn elapsed_ms(s: RateState, now: u64) -> int {
    if now >= s.epoch_ms {
        now - s.epoch_ms
    } else {
        0
    }
}

/// Whether `tick` at `now` starts a new epoch.
pub open spec fn starts_epoch(s: RateState, now: u64) -> bool {
    elapsed_ms(s, now) >= EPOCH_MS
}

/// How long `tick` at `now` waits before its permit is due: the time left in
/// the epoch spread over the permits left in it, or the whole rest of the
/// epoch once the target is reached.
pub open spec fn sleep_ms(s: RateState, now: u64) -> int {
    let elapsed = if starts_epoch(s, now) {
        0
    } else {
        elapsed_ms(s, now)
    };
    let count = if starts_epoch(s, now) {
        1
    } else if s.count < u32::MAX {
        s.count + 1
    } else {
        s.count as int
    };
    let remaining = if s.rate > count {
        s.rate - count
    } else {
        1
    };
    let lag = (EPOCH_MS - elapsed) / remaining;
    if lag >= 1 {
        lag
    } else if count >= s.rate {
        EPOCH_MS - elapsed
    } else {
        0
    }
}

/// The pacing state after `tick` at `now`.
pub open spec fn next_state(s: RateState, now: u64) -> RateState {
    let count = if starts_epoch(s, now) {
        1
    } else if s.count < u32::MAX {
        (s.count + 1) as u32
    } else {
        s.count
    };
    RateState {
        count,
        rate: s.rate,
        epoch_ms: if starts_epoch(s, now) {
            now
        } else {
            s.epoch_ms
        },
        last_permit_ms: (now + sleep_ms(s, now)) as u64,
    }
}

/// At rate one, the permit of the current epoch is due at its end.
pub open spec fn state_wf(s: RateState) -> bool {
    &&& s.epoch_ms <= MAX_CLOCK_MS
    &&& (s.rate == 1 && s.count >= 1 ==> s.last_permit_ms == s.epoch_ms + EPOCH_MS)
}

/// Whether an operation may start with `in_flight` of `concurrency` slots
/// taken.
pub open spec fn admits(in_flight: nat, concurrency: nat) -> bool {
    in_flight < concurrency
}

/// Paces operations to a target rate and bounds how many are in flight.
pub struct RateManager {
    count: u32,
    rate: u32,
    epoch_ms: u64,
    last_permit_ms: u64,
    concurrency: usize,
    in_flight: usize,
    observations: Vec<u32>,
}

impl RateManager {
    pub closed spec fn state(&self) -> RateState {
        RateState {
            count: self.count,
            rate: self.rate,
            epoch_ms: self.epoch_ms,
            last_permit_ms: self.last_permit_ms,
        }
    }

    /// Permits per epoch observed so far, one entry per finished epoch.
    pub closed spec fn observed_rates(&self) -> Seq<u32> {
        self.observations@
    }

    pub closed spec fn spec_in_flight(&self) -> nat {
        self.in_flight as nat
    }

    pub closed spec fn spec_concurrency(&self) -> nat {
        self.concurrency as nat
    }

    pub closed spec fn wf(&self) -> bool {
        &&& state_wf(self.state())
        &&& self.in_flight <= self.concurrency
        &&& self.observations@.len() <= u32::MAX
    }

    /// A governor for `rate` operations per second with at most
    /// `concurrency` in flight, whose first epoch starts at `now_ms`.
    pub fn new(concurrency: usize, rate: u32, now_ms: u64) -> (r: Self)
        requires
            now_ms <= MAX_CLOCK_MS,
        ensures
            r.wf(),
            r.state() == (RateState { count: 0, rate, epoch_ms: now_ms, last_permit_ms: now_ms }),
            r.spec_in_flight() == 0,
            r.spec_concurrency() == concurrency,
            r.observed_rates() == Seq::<u32>::empty(),
    {
        RateManager {
            count: 0,
            rate,
            epoch_ms: now_ms,
            last_permit_ms: now_ms,
            concurrency,
            in_flight: 0,
            observations: Vec::new(),
        }
    }

    /// Registers one operation at `now_ms` (a monotonic clock reading) and
    /// returns how many milliseconds the caller waits before issuing it.
    /// When a whole epoch has passed, the count of the finished epoch is kept
    /// as an observed rate and a new epoch starts.
    pub fn tick(&mut self, now_ms: u64) -> (r: u64)
        requires
            old(self).wf(),
            old(self).state().epoch_ms <= now_ms <= MAX_CLOCK_MS,
        ensures
            final(self).wf(),
            r == sleep_ms(old(self).state(), now_ms),
            final(self).state() == next_state(old(self).state(), now_ms),
            final(self).state().last_permit_ms == now_ms + r,
            old(self).state().rate == 1 && old(self).state().count >= 1 && now_ms >= old(
                self,
            ).state().last_permit_ms ==> final(self).state().last_permit_ms >= old(
                self,
            ).state().last_permit_ms + EPOCH_MS,
            final(self).spec_in_flight() == old(self).spec_in_flight(),
            final(self).spec_concurrency() == old(self).spec_concurrency(),
            starts_epoch(old(self).state(), now_ms) && old(self).observed_rates().len() < u32::MAX
                ==> final(self).observed_rates() == old(self).observed_rates().push(
                old(self).state().count,
            ),
            !(starts_epoch(old(self).state(), now_ms) && old(self).observed_rates().len()
                < u32::MAX) ==> final(self).observed_rates() == old(self).observed_rates(),
    {
        let mut elapsed: u64 = if now_ms >= self.epoch_ms {
            now_ms - self.epoch_ms
        } else {
            0
        };
        if elapsed >= EPOCH_MS {
            if self.observations.len() < u32::MAX as usize {
                self.observations.push(self.count);
            }
            self.count = 0;
            self.epoch_ms = now_ms;
            elapsed = 0;
        }
        if self.count < u32::MAX {
            self.count = self.count + 1;
        }
        let remaining: u64 = if self.rate > self.count {
            (self.rate - self.count) as u64
        } else {
            1
        };
        let lag = (EPOCH_MS - elapsed) / remaining;
        let sleep = if lag >= 1 {
            lag
        } else if self.count >= self.rate {
            EPOCH_MS - elapsed
        } else {
            0
        };
        let ghost left: int = (EPOCH_MS - elapsed) as int;
        assert(lag <= left) by (nonlinear_arith)
            requires
                lag as int == left / (remaining as int),
                remaining >= 1,
                left >= 0,
        ;
        self.last_permit_ms = now_ms + sleep;
        proof {
            let s0 = old(self).state();
            if s0.rate == 1 && s0.count >= 1 && now_ms >= s0.last_permit_ms {
                law_rate_one_spacing(s0, now_ms);
            }
            if self.rate == 1 {
                assert(remaining == 1);
                assert(lag == EPOCH_MS - elapsed);
            }
        }
        sleep
    }

    /// Takes an in-flight slot if one is free.
    pub fn try_acquire(&mut self) -> (r: bool)
        requires
            old(self).wf(),
        ensures
            final(self).wf(),
            r == admits(old(self).spec_in_flight(), old(self).spec_concurrency()),
            final(self).spec_in_flight() == old(self).spec_in_flight() + if r {
                1nat
            } else {
                0nat
            },
            final(self).spec_concurrency() == old(self).spec_concurrency(),
            final(self).state() == old(self).state(),
            final(self).observed_rates() == old(self).observed_rates(),
    {
        if self.in_flight < self.concurrency {
            self.in_flight = self.in_flight + 1;
            true
        } else {
            false
        }
    }

    /// Gives an in-flight slot back.
    pub fn release(&mut self)
        requires
            old(self).wf(),
        ensures
            final(self).wf(),
            old(self).spec_in_flight() > 0 ==> final(self).spec_in_flight()
                == old(self).spec_in_flight() - 1,
            old(self).spec_in_flight() == 0 ==> final(self).spec_in_flight() == 0,
            final(self).spec_concurrency() == old(self).spec_concurrency(),
            final(self).state() == old(self).state(),
            final(self).observed_rates() == old(self).observed_rates(),
    {
        if self.in_flight > 0 {
            self.in_flight = self.in_flight - 1;
        }
    }

    /// Summary of the observed rates; higher is better, so the 95th
    /// percentile is taken from the low end.
    pub fn stats(&self) -> (r: ObservationsStats)
        requires
            self.wf(),
        ensures
            r == stats_of(self.observed_rates(), true),
    {
        ObservationsStats::new(self.observations.clone(), true)
    }
}

/// At rate one, a permit is never due less than a second after the previous
/// one, when each tick comes once the previous permit was due.
pub proof fn law_rate_one_spacing(s: RateState, now: u64)
    requires
        state_wf(s),
        s.rate == 1,
        s.count >= 1,
        now >= s.last_permit_ms,
        now <= MAX_CLOCK_MS,
    ensures
        next_state(s, now).last_permit_ms >= s.last_permit_ms + EPOCH_MS,
        state_wf(next_state(s, now)),
{
}

/// With room for one operation in flight, a slot is granted only when none is
/// held, so operations are issued strictly one after another whatever the
/// rate.
pub proof fn law_single_slot_is_serial(in_flight: nat)
    requires
        in_flight <= 1,
    ensures
        admits(in_flight, 1) <==> in_flight == 0,
        !admits(in_flight + 1, 1),
{
}

/// Once `rate` operations were registered in an epoch, every further one in
/// the same epoch waits for the epoch's end: no epoch issues more than `rate`
/// permits before it closes.
pub proof fn law_rate_cap(s: RateState, now: u64)
    requires
        state_wf(s),
        s.rate >= 1,
        s.epoch_ms <= now,
        !starts_epoch(s, now),
        s.count + 1 >= s.rate,
    ensures
        now + sleep_ms(s, now) >= s.epoch_ms + EPOCH_MS,
{
}

} // verus!
