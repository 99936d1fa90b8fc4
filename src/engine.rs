use vstd::prelude::*;
use vstd::string::StringExecFns;

use crate::payload::{dec, decimal};
use crate::confirmation::Confirmations;
use crate::rate::RateManager;
use crate::results::BenchStatistics;
use crate::stats::stats_of;
use crate::types::{Address, ConfirmationSettings};

verus! {

/// What one iteration of an engine does besides sending its request.
#[derive(Clone, Copy, Debug, PartialEq, Eq, Structural)]
pub struct StepPlan {
    /// Open a signature subscription for the transaction.
    pub subscribe_signature: bool,
    /// Track the request in the account-update tracker.
    pub track_account: bool,
    /// Track the request in the signature tracker.
    pub track_signature: bool,
    /// The account-update confirmation is handed back to the iteration.
    pub sync_account: bool,
    /// The signature confirmation is handed back to the iteration.
    pub sync_signature: bool,
    /// The rate permit is released as soon as the response is in; otherwise
    /// it is held until the confirmations handed back have arrived.
    pub release_on_delivery: bool,
}

/// The plan of one iteration for a request that is a transaction (with a
/// signature) or not.
pub open spec fn step_plan(c: ConfirmationSettings, is_transaction: bool) -> StepPlan {
    StepPlan {
        subscribe_signature: is_transaction && c.subscribe_to_signatures,
        track_account: is_transaction && c.subscribe_to_accounts,
        track_signature: is_transaction && c.subscribe_to_signatures,
        sync_account: is_transaction && c.subscribe_to_accounts && c.enforce_total_sync,
        sync_signature: is_transaction && c.subscribe_to_signatures && c.enforce_total_sync,
        release_on_delivery: !c.enforce_total_sync,
    }
}

/// Decides which subscriptions and trackers an iteration uses and when its
/// rate permit is released.  With total sync enforced, the permit is held
/// until every confirmation of the transaction has come in, so the rate
/// cannot exceed the confirmation rate.
pub fn plan_step(c: &ConfirmationSettings, is_transaction: bool) -> (r: StepPlan)
    ensures
        r == step_plan(*c, is_transaction),
        c.enforce_total_sync ==> !r.release_on_delivery,
{
    StepPlan {
        subscribe_signature: is_transaction && c.subscribe_to_signatures,
        track_account: is_transaction && c.subscribe_to_accounts,
        track_signature: is_transaction && c.subscribe_to_signatures,
        sync_account: is_transaction && c.subscribe_to_accounts && c.enforce_total_sync,
        sync_signature: is_transaction && c.subscribe_to_signatures && c.enforce_total_sync,
        release_on_delivery: !c.enforce_total_sync,
    }
}

/// What an engine does next.
#[derive(Clone, Copy, Debug, PartialEq, Eq, Structural)]
pub enum RunAction {
    /// Run the iteration with this request id.
    Step(u64),
    /// The run is over.
    Stop,
}

/// The next move of an engine that has run `next_id` iterations of
/// `iterations`: it stops at the bound, on interruption, or after a step that
/// failed.
pub fn next_action(next_id: u64, iterations: u64, interrupted: bool, step_failed: bool) -> (r: RunAction)
    ensures
        r == if next_id < iterations && !interrupted && !step_failed {
            RunAction::Step(next_id)
        } else {
            RunAction::Stop
        },
{
    if next_id < iterations && !interrupted && !step_failed {
        RunAction::Step(next_id)
    } else {
        RunAction::Stop
    }
}

/// Whether a finished run waits for late confirmations before its
/// statistics are taken: only when it issued a request, so that a run without
/// iterations ends at once.
pub fn waits_for_confirmations(issued: u64) -> (r: bool)
    ensures
        r == (issued > 0),
{
    issued > 0
}

/// The statistics record of one engine: the delivery latency of each
/// request kind, the confirmation latencies and the observed rate.
pub fn engine_statistics<A, B>(
    delivery: &Vec<(String, Confirmations<()>)>,
    signature: &Confirmations<A>,
    account: &Confirmations<B>,
    rate: &RateManager,
) -> (r: BenchStatistics)
    requires
        signature.wf(),
        account.wf(),
        rate.wf(),
        forall|i: int| 0 <= i < delivery@.len() ==> (#[trigger] delivery@[i]).1.wf(),
    ensures
        r.request_stats@.len() == delivery@.len(),
        forall|i: int|
            0 <= i < delivery@.len() ==> (#[trigger] r.request_stats@[i]).0@ == delivery@[i].0@
                && r.request_stats@[i].1 == delivery@[i].1.spec_finalize(),
        r.signature_confirmation_latency == signature.spec_finalize(),
        r.account_update_latency == account.spec_finalize(),
        r.rps == stats_of(rate.observed_rates(), true),
{
    let mut request_stats: Vec<(String, crate::stats::ObservationsStats)> = Vec::new();
    let mut i: usize = 0;
    while i < delivery.len()
        invariant
            i <= delivery@.len(),
            request_stats@.len() == i,
            forall|k: int| 0 <= k < delivery@.len() ==> (#[trigger] delivery@[k]).1.wf(),
            forall|k: int|
                0 <= k < i ==> (#[trigger] request_stats@[k]).0@ == delivery@[k].0@
                    && request_stats@[k].1 == delivery@[k].1.spec_finalize(),
        decreases delivery@.len() - i,
    {
        let entry = &delivery[i];
        let name = entry.0.clone();
        let stats = entry.1.finalize();
        request_stats.push((name, stats));
        i = i + 1;
    }
    BenchStatistics {
        request_stats,
        signature_confirmation_latency: signature.finalize(),
        account_update_latency: account.finalize(),
        rps: rate.stats(),
    }
}

/// Periodically picks an account to touch on the base chain, in turn.
pub struct TransferManager {
    pdas: Vec<Address>,
    next: usize,
    last_ms: u64,
    frequency_ms: u64,
}

impl TransferManager {
    pub closed spec fn spec_pdas(&self) -> Seq<Address> {
        self.pdas@
    }

    pub closed spec fn spec_next(&self) -> nat {
        self.next as nat
    }

    pub closed spec fn spec_last_ms(&self) -> u64 {
        self.last_ms
    }

    pub closed spec fn spec_frequency_ms(&self) -> u64 {
        self.frequency_ms
    }

    pub open spec fn wf(&self) -> bool {
        self.spec_pdas().len() == 0 || self.spec_next() < self.spec_pdas().len()
    }

    /// A manager over `pdas` that fires every `frequency_ms` (never when 0),
    /// counting from `now_ms`.
    pub fn new(pdas: Vec<Address>, frequency_ms: u64, now_ms: u64) -> (r: Self)
        ensures
            r.wf(),
            r.spec_pdas() == pdas@,
            r.spec_next() == 0,
            r.spec_last_ms() == now_ms,
            r.spec_frequency_ms() == frequency_ms,
    {
        TransferManager { pdas, next: 0, last_ms: now_ms, frequency_ms }
    }

    /// The account to touch at `now_ms`, if the period has elapsed since the
    /// last one; the accounts come in turn, round robin.
    pub fn transfer(&mut self, now_ms: u64) -> (r: Option<Address>)
        requires
            old(self).wf(),
        ensures
            final(self).wf(),
            final(self).spec_pdas() == old(self).spec_pdas(),
            final(self).spec_frequency_ms() == old(self).spec_frequency_ms(),
            ({
                let fire = old(self).spec_frequency_ms() > 0 && now_ms >= old(self).spec_last_ms()
                    && now_ms - old(self).spec_last_ms() >= old(self).spec_frequency_ms()
                    && old(self).spec_pdas().len() > 0;
                &&& fire ==> r == Some(old(self).spec_pdas()[old(self).spec_next() as int])
                    && final(self).spec_last_ms() == now_ms && final(self).spec_next() == (old(
                    self,
                ).spec_next() + 1) % old(self).spec_pdas().len()
                &&& !fire ==> r is None && final(self).spec_last_ms() == old(self).spec_last_ms()
                    && final(self).spec_next() == old(self).spec_next()
            }),
    {
        if self.frequency_ms == 0 || now_ms < self.last_ms || now_ms - self.last_ms
            < self.frequency_ms {
            return None;
        }
        let n = self.pdas.len();
        if n == 0 {
            return None;
        }
        let pda = self.pdas[self.next];
        self.next = (self.next + 1) % n;
        self.last_ms = now_ms;
        Some(pda)
    }
}

proof fn lemma_scaled_below(c: int, t: int, w: int)
    requires
        0 <= c < t,
        0 <= w <= 10000,
        t <= u64::MAX,
    ensures
        0 <= c * w <= u64::MAX * 10000,
        0 <= (c * w) / t <= w,
{
    assert(0 <= c * w <= t * w) by (nonlinear_arith)
        requires
            0 <= c < t,
            0 <= w,
    ;
    assert(t * w <= u64::MAX * 10000) by (nonlinear_arith)
        requires
            0 < t <= u64::MAX,
            0 <= w <= 10000,
    ;
    vstd::arithmetic::div_mod::lemma_div_is_ordered(c * w, t * w, t);
    vstd::arithmetic::div_mod::lemma_div_by_multiple(w, t);
    assert(t * w == w * t) by (nonlinear_arith);
    vstd::arithmetic::div_mod::lemma_div_pos_is_pos(c * w, t);
}

/// Progress of a run for display.
pub struct ProgressBar {
    pub total: u64,
}

/// Width of the bar, in cells.
pub const BAR_WIDTH: u64 = 80;

impl ProgressBar {
    /// A bar for a run of `total` requests.
    pub fn new(total: u64) -> (r: Self)
        ensures
            r.total == total,
    {
        ProgressBar { total }
    }

    /// Whether the run is over after `current` requests, or because it was
    /// interrupted.
    pub fn done(&self, current: u64, interrupted: bool) -> (r: bool)
        ensures
            r == (current >= self.total || interrupted),
    {
        current >= self.total || interrupted
    }

    /// Number of filled cells after `current` requests.
    pub fn filled(&self, current: u64) -> (r: u64)
        ensures
            self.total == 0 || current >= self.total ==> r == BAR_WIDTH,
            self.total > 0 && current < self.total ==> r as int == (current as int) * (BAR_WIDTH as int) / (self.total as int),
            r <= BAR_WIDTH,
    {
        if self.total == 0 || current >= self.total {
            return BAR_WIDTH;
        }
        proof {
            lemma_scaled_below(current as int, self.total as int, BAR_WIDTH as int);
        }
        let prod: u128 = (current as u128) * (BAR_WIDTH as u128);
        (prod / (self.total as u128)) as u64
    }

    /// Completed share of the run in hundredths of a percent.
    pub fn basis_points(&self, current: u64) -> (r: u64)
        ensures
            self.total == 0 || current >= self.total ==> r == 10000,
            self.total > 0 && current < self.total ==> r as int == (current as int) * 10000 / (self.total as int),
    {
        if self.total == 0 || current >= self.total {
            return 10000;
        }
        proof {
            lemma_scaled_below(current as int, self.total as int, 10000);
        }
        let prod: u128 = (current as u128) * 10000;
        (prod / (self.total as u128)) as u64
    }
}

/// The port of an endpoint: the given one, or 80; plus one for the WebSocket
/// endpoint.
pub open spec fn endpoint_port(port: Option<u16>, ws: bool) -> int {
    match port {
        Some(p) => p + if ws {
            1int
        } else {
            0int
        },
        None => 80,
    }
}

/// `host:port` of an endpoint; the WebSocket endpoint listens on the port
/// after the HTTP one.
pub fn address(host: &str, port: Option<u16>, ws: bool) -> (r: String)
    requires
        port matches Some(p) ==> p < u16::MAX || !ws,
    ensures
        r@ == host@ + ":"@ + dec(endpoint_port(port, ws) as nat),
{
    let p: u64 = match port {
        Some(p) => p as u64 + if ws {
            1
        } else {
            0
        },
        None => 80,
    };
    let mut s = String::from_str(host);
    s.append(":");
    s.append(decimal(p).as_str());
    s
}

/// `n` as decimal text left-padded with zeros to `width` characters.
pub open spec fn zero_padded(n: nat, width: nat) -> Seq<char> {
    let d = dec(n);
    if d.len() >= width {
        d
    } else {
        Seq::new((width - d.len()) as nat, |i: int| '0') + d
    }
}

/// Name of the file that receives the results of a run that ended at
/// `unix_secs`.
pub fn output_file_name(unix_secs: u64) -> (r: String)
    ensures
        r@ == "redline-"@ + zero_padded(unix_secs as nat, 12) + ".json"@,
{
    let d = decimal(unix_secs);
    let mut s = String::from_str("redline-");
    let mut k: usize = d.as_str().unicode_len();
    let ghost start = s@;
    let ghost pad = if d@.len() >= 12 {
        0
    } else {
        12 - d@.len()
    };
    let mut added: usize = 0;
    while k < 12
        invariant
            k == d@.len() + added,
            added <= pad,
            d@.len() < 12 ==> pad == 12 - d@.len(),
            d@.len() >= 12 ==> pad == 0,
            s@ == start + Seq::new(added as nat, |i: int| '0'),
        decreases 12 - k,
    {
        s.append("0");
        proof {
            reveal_strlit("0");
            assert(s@ =~= start + Seq::new((added + 1) as nat, |i: int| '0'));
        }
        k = k + 1;
        added = added + 1;
    }
    s.append(d.as_str());
    s.append(".json");
    proof {
        assert(added == pad);
        assert(s@ =~= "redline-"@ + zero_padded(unix_secs as nat, 12) + ".json"@);
    }
    s
}

} // verus!
