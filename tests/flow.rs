use netspeed::control::{
    loop_action, next_phase, phase_query_str, ControlFlags, EngineControl, LoopAction, PhaseOutput, RunProgress,
    TestEngine,
};
use netspeed::stats::latency_summary_from_samples;
use netspeed::model::{Phase, RunConfig, TestEvent};
use netspeed::throughput::{
    estimate_steady_window, phase_throughput, throughput_summary, upload_chunks, ThroughputMeter,
};

fn ramp_then_steady() -> Vec<(u64, u64)> {
    let mut s = Vec::new();
    let mut t = 0u64;
    while t <= 10_000 {
        let bytes = if t <= 2_000 { 0 } else { (t - 2_000) * 12_500 };
        s.push((t, bytes));
        t += 200;
    }
    s
}

#[test]
fn steady_window_skips_ramp_up() {
    let s = ramp_then_steady();
    let w = estimate_steady_window(&s, 10_000);
    assert_eq!(w, Some((100_000_000, 8_000)));
    let r = phase_throughput(&s, 10_000, 100_000_000);
    assert_eq!(r.bits_per_sec, 100_000_000);
    let naive = throughput_summary(100_000_000, 10_000);
    assert_eq!(naive.bits_per_sec, 80_000_000);
}

#[test]
fn steady_window_falls_back() {
    assert_eq!(estimate_steady_window(&vec![(0, 0)], 10_000), None);
    assert_eq!(estimate_steady_window(&Vec::new(), 10_000), None);
    let short = vec![(0u64, 0u64), (100, 1000), (250, 2000)];
    assert_eq!(estimate_steady_window(&short, 250), Some((2000, 250)));
    let tiny = vec![(0u64, 0u64), (100, 1000), (150, 2000)];
    assert_eq!(estimate_steady_window(&tiny, 150), None);
    let r = phase_throughput(&tiny, 150, 2000);
    assert_eq!((r.bytes, r.duration_ms), (2000, 150));
}

#[test]
fn ramp_is_a_fifth_but_at_least_a_second() {
    let s: Vec<(u64, u64)> = (0..=50u64).map(|i| (i * 200, i * 1000)).collect();
    assert_eq!(estimate_steady_window(&s, 20_000), Some((30_000, 6_000)));
    assert_eq!(estimate_steady_window(&s, 2_000), Some((45_000, 9_000)));
}

#[test]
fn throughput_formula() {
    let r = throughput_summary(1_250_000, 1_000);
    assert_eq!(r.bits_per_sec, 10_000_000);
    assert_eq!(throughput_summary(10, 0).bits_per_sec, 80_000);
    assert_eq!(throughput_summary(u64::MAX, 1).bits_per_sec, u64::MAX);
}

#[test]
fn meter_ticks_and_summary() {
    let mut m = ThroughputMeter::new(Phase::Upload, 1_000);
    let ev = m.tick(200, 50_000);
    match ev {
        TestEvent::ThroughputTick { phase, bytes_total, bytes_per_sec_instant } => {
            assert_eq!(phase, Phase::Upload);
            assert_eq!(bytes_total, 50_000);
            assert_eq!(bytes_per_sec_instant, 250_000);
        }
        _ => panic!("unexpected event"),
    }
    let ev = m.tick(400, 150_000);
    assert!(matches!(ev, TestEvent::ThroughputTick { bytes_per_sec_instant: 500_000, .. }));
    let r = m.finish(1_000, 400_000);
    assert_eq!((r.bytes, r.duration_ms), (100_000, 200));
    assert_eq!(r.bits_per_sec, 4_000_000);
    let flags = ControlFlags { paused: true, cancelled: false };
    assert_eq!(m.next_action(flags, 500), LoopAction::Wait);
}

#[test]
fn upload_body_chunks() {
    assert_eq!(upload_chunks(10_000_000), (152, 38_528));
    assert_eq!(upload_chunks(65_536), (1, 0));
    assert_eq!(upload_chunks(0), (0, 0));
}

#[test]
fn control_messages() {
    let mut f = ControlFlags::new();
    assert!(f.apply(EngineControl::Pause(true)));
    assert!(f.paused && !f.cancelled);
    assert!(f.apply(EngineControl::Pause(false)));
    assert!(!f.paused);
    assert!(!f.apply(EngineControl::Cancel));
    assert!(f.cancelled);
    assert_eq!(loop_action(f, 0, 1000), LoopAction::Stop);
}

#[test]
fn phases_run_in_order() {
    let mut seen = vec![Phase::IdleLatency];
    let mut p = Phase::IdleLatency;
    while let Some(q) = next_phase(p, true) {
        seen.push(q);
        p = q;
    }
    assert_eq!(seen, vec![Phase::IdleLatency, Phase::Download, Phase::Upload, Phase::PacketLoss, Phase::Summary]);
    assert_eq!(next_phase(Phase::Upload, false), Some(Phase::Summary));
    assert_eq!(phase_query_str(Phase::Download), Some("download"));
    assert_eq!(phase_query_str(Phase::IdleLatency), None);
}

fn config() -> RunConfig {
    RunConfig {
        base_url: "https://speed.cloudflare.com".to_string(),
        meas_id: "123".to_string(),
        download_bytes_per_req: 10_000_000,
        upload_bytes_per_req: 5_000_000,
        concurrency: 6,
        idle_latency_duration_ms: 2_000,
        download_duration_ms: 10_000,
        upload_duration_ms: 10_000,
        probe_interval_ms: 250,
        probe_timeout_ms: 800,
        user_agent: "agent".to_string(),
        experimental: false,
        interface: None,
        source_ip: None,
    }
}

#[test]
fn engine_keeps_its_configuration() {
    let e = TestEngine::new(config());
    assert_eq!(e.cfg().concurrency, 6);
    assert_eq!(e.cfg().base_url, "https://speed.cloudflare.com");
}

#[test]
fn run_progress_collects_phases() {
    let mut r = RunProgress::new(false);
    assert_eq!(r.phase, Some(Phase::IdleLatency));
    let idle = latency_summary_from_samples(2, 2, &vec![1000, 2000], None);
    r.complete_phase(PhaseOutput::Latency(idle.clone()));
    assert_eq!(r.phase, Some(Phase::Download));
    let dl = throughput_summary(1_000_000, 1_000);
    let loaded = latency_summary_from_samples(1, 1, &vec![5000], None);
    r.complete_phase(PhaseOutput::Transfer(dl, loaded.clone()));
    assert_eq!(r.phase, Some(Phase::Upload));
    let ul = throughput_summary(500_000, 1_000);
    r.complete_phase(PhaseOutput::Transfer(ul, loaded.clone()));
    assert_eq!(r.phase, Some(Phase::Summary));
    r.complete_phase(PhaseOutput::Done);
    assert_eq!(r.phase, None);
    let res = r.into_result(&config(), "t".to_string(), None, None);
    assert_eq!(res.base_url, "https://speed.cloudflare.com");
    assert_eq!(res.meas_id, "123");
    assert!(res.experimental_udp.is_none());
    assert_eq!(res.idle_latency, idle);
    assert_eq!(res.download.bits_per_sec, 8_000_000);
    assert_eq!(res.upload.bits_per_sec, 4_000_000);
    assert_eq!(res.loaded_latency_upload, loaded);
    assert!(res.turn.is_none());
}
