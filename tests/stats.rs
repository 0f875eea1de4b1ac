use netspeed::latency::{clamp_rtt, LatencyProber, ProbeTally};
use netspeed::control::{ControlFlags, LoopAction};
use netspeed::model::Phase;
use netspeed::model::TestEvent;
use netspeed::stats::{
    isqrt, latency_summary_from_samples, loss_ppm, max_sample, mean_sample, min_sample, quantile,
    OnlineStats,
};

#[test]
fn loss_is_zero_when_nothing_sent() {
    assert_eq!(loss_ppm(0, 0), 0);
}

#[test]
fn loss_ratio_values() {
    assert_eq!(loss_ppm(10, 7), 300_000);
    assert_eq!(loss_ppm(3, 0), 1_000_000);
    assert_eq!(loss_ppm(3, 1), 666_666);
    assert_eq!(loss_ppm(5, 5), 0);
}

#[test]
fn loss_stays_within_unit_range() {
    for sent in 0u64..40 {
        for received in 0..=sent {
            let l = loss_ppm(sent, received);
            assert!(l <= 1_000_000);
        }
    }
    assert!(loss_ppm(u64::MAX, 0) == 1_000_000);
}

#[test]
fn nearest_rank_quantiles() {
    let s = vec![5u64, 1, 3, 2, 4];
    assert_eq!(quantile(&s, 0), 1);
    assert_eq!(quantile(&s, 250), 2);
    assert_eq!(quantile(&s, 500), 3);
    assert_eq!(quantile(&s, 750), 4);
    assert_eq!(quantile(&s, 1000), 5);
    assert_eq!(min_sample(&s), 1);
    assert_eq!(max_sample(&s), 5);
    assert_eq!(mean_sample(&s), 3);
}

#[test]
fn quantiles_with_equal_samples() {
    let s = vec![7u64, 7, 7, 9];
    assert_eq!(quantile(&s, 500), 7);
    assert_eq!(quantile(&s, 750), 7);
    assert_eq!(quantile(&s, 990), 9);
}

#[test]
fn empty_sample_set_has_no_statistics() {
    let r = latency_summary_from_samples(4, 0, &Vec::new(), None);
    assert_eq!(r.sent, 4);
    assert_eq!(r.received, 0);
    assert_eq!(r.loss_ppm, 1_000_000);
    assert!(r.min_us.is_none() && r.p25_us.is_none() && r.p50_us.is_none());
    assert!(r.p75_us.is_none() && r.p90_us.is_none() && r.p99_us.is_none());
    assert!(r.max_us.is_none() && r.mean_us.is_none() && r.jitter_us.is_none());
}

#[test]
fn summary_statistics_are_ordered() {
    let samples = vec![12_000u64, 9_500, 30_000, 11_000, 10_200, 9_900, 15_000, 10_000];
    let r = latency_summary_from_samples(10, 8, &samples, Some(42));
    assert_eq!(r.loss_ppm, 200_000);
    assert_eq!(r.jitter_us, Some(42));
    let v = [r.min_us, r.p25_us, r.p50_us, r.p75_us, r.p90_us, r.p99_us, r.max_us];
    for w in v.windows(2) {
        assert!(w[0].unwrap() <= w[1].unwrap());
    }
    assert_eq!(r.min_us, Some(9_500));
    assert_eq!(r.p50_us, Some(10_200));
    assert_eq!(r.max_us, Some(30_000));
}

#[test]
fn jitter_is_sample_standard_deviation() {
    let mut o = OnlineStats::new();
    assert_eq!(o.stddev(), None);
    o.push(1000);
    assert_eq!(o.stddev(), None);
    o.push(2000);
    o.push(3000);
    assert_eq!(o.stddev(), Some(1000));
    assert_eq!(o.len(), 3);
    let mut p = OnlineStats::new();
    for x in [10u64, 20, 40, 80] {
        p.push(x);
    }
    assert_eq!(p.stddev(), Some(30));
}

#[test]
fn integer_square_root() {
    assert_eq!(isqrt(0), 0);
    assert_eq!(isqrt(15), 3);
    assert_eq!(isqrt(16), 4);
    assert_eq!(isqrt(1 << 100), 1 << 50);
}

#[test]
fn round_trip_times_are_clamped() {
    assert_eq!(clamp_rtt(0), 1);
    assert_eq!(clamp_rtt(500), 500);
    assert_eq!(clamp_rtt(90_000_000), 60_000_000);
}

#[test]
fn tally_counts_answers_and_losses() {
    let mut t = ProbeTally::new();
    t.record(Some(10_000));
    t.record(None);
    t.record(Some(20_000));
    assert_eq!(t.sent(), 3);
    assert_eq!(t.received(), 2);
    let s = t.summary();
    assert_eq!(s.loss_ppm, 333_333);
    assert_eq!(s.min_us, Some(10_000));
    assert_eq!(s.max_us, Some(20_000));
    assert_eq!(s.jitter_us, Some(7071));
}

#[test]
fn prober_reports_each_sample() {
    let mut p = LatencyProber::new(Phase::Download, Some(Phase::Download), 1000, 100, 500);
    let ev = p.record(Some(1234));
    match ev {
        TestEvent::LatencySample { phase, during, rtt_us, ok } => {
            assert_eq!(phase, Phase::Download);
            assert_eq!(during, Some(Phase::Download));
            assert_eq!(rtt_us, Some(1234));
            assert!(ok);
        }
        _ => panic!("unexpected event"),
    }
    let ev = p.record(None);
    assert!(matches!(ev, TestEvent::LatencySample { rtt_us: None, ok: false, .. }));
    assert_eq!(p.tally.sent(), 2);
    assert_eq!(p.tally.received(), 1);
}

#[test]
fn pause_freezes_counters() {
    let mut p = LatencyProber::new(Phase::IdleLatency, None, 10_000, 100, 500);
    let mut flags = ControlFlags::new();
    let mut outcomes = vec![Some(900u64), Some(1100), None, Some(1000), Some(1200), None];
    let mut counts = Vec::new();
    let mut t: u64 = 0;
    for step in 0..12u64 {
        if step == 3 {
            flags.apply(netspeed::control::EngineControl::Pause(true));
        }
        if step == 8 {
            flags.apply(netspeed::control::EngineControl::Pause(false));
        }
        if p.next_action(flags, t) == LoopAction::Proceed {
            let o = if outcomes.is_empty() { None } else { outcomes.remove(0) };
            p.record(o);
        }
        counts.push((p.tally.sent(), p.tally.received()));
        t += 100;
    }
    let before = counts[2];
    for c in &counts[3..8] {
        assert_eq!(*c, before);
    }
    assert!(counts[11].0 > before.0);
}

#[test]
fn cancelled_prober_stops() {
    let p = LatencyProber::new(Phase::IdleLatency, None, 10_000, 100, 500);
    let flags = ControlFlags { paused: true, cancelled: true };
    assert_eq!(p.next_action(flags, 0), LoopAction::Stop);
    let running = ControlFlags::new();
    assert_eq!(p.next_action(running, 10_000), LoopAction::Stop);
    assert_eq!(p.next_action(running, 9_999), LoopAction::Proceed);
}
