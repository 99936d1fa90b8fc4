use redline::confirmation::Confirmations;
use redline::engine::{
    address, next_action, output_file_name, plan_step, waits_for_confirmations, ProgressBar,
    RunAction, TransferManager,
};
use redline::rate::RateManager;
use redline::types::{Address, ConfirmationSettings};
use redline::websocket::{Subscription, SubscriptionTable, WebsocketPool};

/// Runs `ticks` operations through a governor on a simulated clock that
/// advances by each requested sleep; returns the issue times.
fn simulate(rate: u32, ticks: usize) -> (Vec<u64>, RateManager) {
    let mut now = 0u64;
    let mut g = RateManager::new(1000, rate, now);
    let mut times = Vec::new();
    for _ in 0..ticks {
        let sleep = g.tick(now);
        now += sleep;
        times.push(now);
    }
    (times, g)
}

#[test]
fn rate_one_spaces_permits_by_a_second() {
    let (times, _) = simulate(1, 20);
    for w in times.windows(2) {
        assert!(w[1] - w[0] >= 1000, "{:?}", w);
    }
}

#[test]
fn rate_stays_within_one_of_target_per_second() {
    let (times, g) = simulate(100, 1500);
    let end = *times.last().unwrap();
    assert!(end >= 12000);
    for sec in 0..(end / 1000) {
        let n = times.iter().filter(|t| **t >= sec * 1000 && **t < (sec + 1) * 1000).count();
        assert!(n <= 101, "second {} had {}", sec, n);
    }
    let avg = 1500.0 / (end as f64 / 1000.0);
    assert!((avg - 100.0).abs() / 100.0 < 0.02, "avg {}", avg);
    let s = g.stats();
    assert!(s.count >= 10);
}

#[test]
fn first_tick_of_epoch_spreads_the_second() {
    let mut g = RateManager::new(10, 4, 0);
    assert_eq!(g.tick(0), 333);
    assert_eq!(g.tick(333), 333);
    assert_eq!(g.tick(666), 334);
    assert_eq!(g.tick(1000), 333);
}

#[test]
fn single_slot_is_serial() {
    let mut g = RateManager::new(1, 1000, 0);
    assert!(g.try_acquire());
    assert!(!g.try_acquire());
    g.release();
    assert!(g.try_acquire());
    g.release();
    g.release();
    assert!(g.try_acquire());
    assert!(!g.try_acquire());
}

#[test]
fn observed_once_and_removed_on_timeout() {
    let mut c: Confirmations<u8> = Confirmations::new();
    c.track(1, 100, Some(7));
    c.track(2, 200, None);
    c.track(3, 300, None);
    assert_eq!(c.pending_count(), 3);
    assert_eq!(c.observe(1, 1100), Some(7));
    assert_eq!(c.observe(1, 5000), None);
    assert!(!c.is_pending(1));
    assert_eq!(c.observe(2, 2200), None);
    c.remove(3);
    assert_eq!(c.pending_count(), 0);
    let s = c.finalize();
    assert_eq!(s.count, 2);
    assert_eq!(s.min, 1000);
    assert_eq!(s.max, 2000);
    assert_eq!(s.avg, 1500);
}

#[test]
fn no_observation_gives_empty_stats() {
    let c: Confirmations<()> = Confirmations::new();
    assert_eq!(c.finalize().count, 0);
}

fn sub(id: u64, oneshot: bool) -> Subscription<u64> {
    Subscription { tx: id * 10, payload: format!("sub {id}"), oneshot, id }
}

#[test]
fn early_notification_is_buffered_then_replayed() {
    let mut t: SubscriptionTable<u64> = SubscriptionTable::new();
    t.submit(sub(5, true));
    assert!(!t.on_notification(77, b"note".to_vec()));
    assert_eq!(t.buffered_count(), 1);
    assert_eq!(t.on_ack(5, 77), Some(b"note".to_vec()));
    assert!(t.on_notification(77, b"note".to_vec()));
    assert_eq!(t.subscription(77).map(|s| s.id), Some(5));
    t.on_delivered(77, true);
    assert!(t.subscription(77).is_none());
    assert_eq!(t.buffered_count(), 0);
}

#[test]
fn second_notification_of_oneshot_is_not_delivered() {
    let mut t: SubscriptionTable<u64> = SubscriptionTable::new();
    t.submit(sub(1, true));
    assert_eq!(t.on_ack(1, 9), None);
    assert!(t.on_notification(9, vec![1]));
    t.on_delivered(9, true);
    assert!(!t.on_notification(9, vec![2]));
    assert!(t.subscription(9).is_none());
    assert_eq!(t.buffered_count(), 0);
}

#[test]
fn long_lived_subscription_keeps_delivering_until_receiver_is_gone() {
    let mut t: SubscriptionTable<u64> = SubscriptionTable::new();
    t.submit(sub(3, false));
    t.on_ack(3, 30);
    for _ in 0..3 {
        assert!(t.on_notification(30, vec![0]));
        t.on_delivered(30, true);
    }
    t.on_delivered(30, false);
    assert!(t.subscription(30).is_none());
}

#[test]
fn ack_for_unknown_request_is_ignored() {
    let mut t: SubscriptionTable<u64> = SubscriptionTable::new();
    assert_eq!(t.on_ack(4, 40), None);
    assert!(t.subscription(40).is_none());
}

#[test]
fn acks_delayed_after_notifications_all_delivered() {
    let mut t: SubscriptionTable<u64> = SubscriptionTable::new();
    for id in 0..200u64 {
        t.submit(sub(id, true));
    }
    for id in 0..200u64 {
        assert!(!t.on_notification(1000 + id, id.to_le_bytes().to_vec()));
    }
    let mut delivered = 0;
    for id in 0..200u64 {
        let replay = t.on_ack(id, 1000 + id).expect("buffered notification");
        assert!(t.on_notification(1000 + id, replay));
        assert_eq!(t.subscription(1000 + id).unwrap().id, id);
        t.on_delivered(1000 + id, true);
        delivered += 1;
    }
    assert_eq!(delivered, 200);
    assert_eq!(t.buffered_count(), 0);
}

#[test]
fn pool_is_round_robin() {
    let mut p = WebsocketPool::new(vec!['a', 'b', 'c']);
    let picks: Vec<char> = (0..5).map(|_| { let i = p.connection(); *p.get(i) }).collect();
    assert_eq!(picks, vec!['a', 'b', 'c', 'a', 'b']);
}

#[test]
fn step_plans() {
    let all = ConfirmationSettings {
        subscribe_to_accounts: true,
        subscribe_to_signatures: true,
        get_signature_status: false,
        enforce_total_sync: true,
    };
    let p = plan_step(&all, true);
    assert!(p.subscribe_signature && p.track_account && p.track_signature);
    assert!(p.sync_account && p.sync_signature && !p.release_on_delivery);
    let q = plan_step(&all, false);
    assert!(!q.track_account && !q.track_signature && !q.subscribe_signature);
    let loose = ConfirmationSettings { enforce_total_sync: false, ..all };
    let r = plan_step(&loose, true);
    assert!(r.track_account && !r.sync_account && r.release_on_delivery);
}

#[test]
fn transfers_rotate_at_the_configured_period() {
    let a = Address { bytes: [1; 32] };
    let b = Address { bytes: [2; 32] };
    let mut t = TransferManager::new(vec![a, b], 100, 0);
    assert_eq!(t.transfer(50), None);
    assert_eq!(t.transfer(100), Some(a));
    assert_eq!(t.transfer(150), None);
    assert_eq!(t.transfer(200), Some(b));
    assert_eq!(t.transfer(300), Some(a));
    let mut off = TransferManager::new(vec![a], 0, 0);
    assert_eq!(off.transfer(10_000), None);
}

#[test]
fn progress_bar() {
    let p = ProgressBar::new(200);
    assert_eq!(p.filled(50), 20);
    assert_eq!(p.filled(200), 80);
    assert_eq!(p.basis_points(1), 50);
    assert!(p.done(200, false));
    assert!(p.done(3, true));
    assert!(!p.done(3, false));
    assert_eq!(ProgressBar::new(0).filled(0), 80);
}

#[test]
fn endpoint_addresses() {
    assert_eq!(address("localhost", Some(8899), false), "localhost:8899");
    assert_eq!(address("localhost", Some(8899), true), "localhost:8900");
    assert_eq!(address("example.org", None, true), "example.org:80");
}

#[test]
fn output_file_names() {
    assert_eq!(output_file_name(1700000000), "redline-001700000000.json");
    assert_eq!(output_file_name(0), "redline-000000000000.json");
    assert_eq!(output_file_name(1234567890123), "redline-1234567890123.json");
}

#[test]
fn zero_iterations_give_an_empty_well_formed_record() {
    let rate = RateManager::new(4, 10, 0);
    let delivery: Confirmations<()> = Confirmations::new();
    let stats = redline::results::BenchStatistics {
        request_stats: vec![],
        signature_confirmation_latency: delivery.finalize(),
        account_update_latency: delivery.finalize(),
        rps: rate.stats(),
    };
    let merged = redline::results::BenchStatistics::merge(vec![stats]);
    assert!(merged.request_stats.is_empty());
    assert_eq!(merged.rps.count, 0);
    assert_eq!(merged.account_update_latency, redline::stats::ObservationsStats::default());
}

#[test]
fn channel_queues_prefer_ready_then_oldest_busy() {
    let mut q = redline::pool::ChannelQueues::new(vec![1, 2]);
    assert_eq!(q.acquire(), Some((1, false)));
    q.park(1);
    assert_eq!(q.acquire(), Some((2, false)));
    q.release(2);
    assert_eq!(q.acquire(), Some((2, false)));
    assert_eq!(q.acquire(), Some((1, true)));
    assert_eq!(q.acquire(), None);
}

#[test]
fn run_stops_at_bound_interrupt_or_failure() {
    assert_eq!(next_action(0, 0, false, false), RunAction::Stop);
    assert_eq!(next_action(3, 10, false, false), RunAction::Step(3));
    assert_eq!(next_action(3, 10, true, false), RunAction::Stop);
    assert_eq!(next_action(3, 10, false, true), RunAction::Stop);
    assert!(!waits_for_confirmations(0));
    assert!(waits_for_confirmations(1));
}

#[test]
fn engine_record_from_trackers() {
    let mut d: Confirmations<()> = Confirmations::new();
    d.track(1, 0, None);
    d.observe(1, 500);
    let delivery = vec![("GetBalance".to_string(), d)];
    let sig: Confirmations<bool> = Confirmations::new();
    let acc: Confirmations<u64> = Confirmations::new();
    let rate = RateManager::new(2, 10, 0);
    let r = redline::engine::engine_statistics(&delivery, &sig, &acc, &rate);
    assert_eq!(r.request_stats.len(), 1);
    assert_eq!(r.request_stats[0].0, "GetBalance");
    assert_eq!(r.request_stats[0].1.count, 1);
    assert_eq!(r.request_stats[0].1.avg, 500);
    assert_eq!(r.account_update_latency.count, 0);
    assert!(redline::results::BenchStatistics::can_merge(&vec![r]));
}
