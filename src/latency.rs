//! Counting of latency probes, shared by the HTTP latency prober and the STUN probe.

use crate::control::{loop_action, loop_action_spec, ControlFlags, LoopAction};
use crate::model::{LatencySummary, Phase, TestEvent};
use crate::stats::{
    is_jitter, is_summary_of, latency_summary_from_samples, OnlineStats, MAX_SAMPLES,
    MAX_SAMPLE_US, MIN_SAMPLE_US,
};
use vstd::prelude::*;

verus! {

/// A round-trip time brought into the kept range of 1 µs to 60 s.
pub open spec fn clamp_rtt_spec(us: u64) -> u64 {
    if us < MIN_SAMPLE_US {
        MIN_SAMPLE_US
    } else if us > MAX_SAMPLE_US {
        MAX_SAMPLE_US
    } else {
        us
    }
}

pub fn clamp_rtt(us: u64) -> (r: u64)
    ensures
        r == clamp_rtt_spec(us),
{
    if us < MIN_SAMPLE_US {
        MIN_SAMPLE_US
    } else if us > MAX_SAMPLE_US {
        MAX_SAMPLE_US
    } else {
        us
    }
}

/// What a tally has counted: attempts, answers and the answers' round-trip times.
pub ghost struct TallyView {
    pub sent: nat,
    pub received: nat,
    pub samples: Seq<u64>,
}

/// The tally after one more attempt, answered after `rtt_us` or not at all.
pub open spec fn record_spec(t: TallyView, outcome: Option<u64>) -> TallyView {
    match outcome {
        Some(us) => TallyView {
            sent: t.sent + 1,
            received: t.received + 1,
            samples: t.samples.push(clamp_rtt_spec(us)),
        },
        None => TallyView { sent: t.sent + 1, ..t },
    }
}

/// `r` summarises what the tally counted, with the jitter of its samples.
pub open spec fn is_tally_summary(t: TallyView, r: LatencySummary) -> bool {
    &&& is_jitter(t.samples, r.jitter_us)
    &&& is_summary_of(t.sent as u64, t.received as u64, t.samples, r.jitter_us, r)
}

/// Attempts and answers of one probe loop.
pub struct ProbeTally {
    sent: u64,
    received: u64,
    samples: Vec<u64>,
    online: OnlineStats,
}

impl View for ProbeTally {
    type V = TallyView;

    closed spec fn view(&self) -> TallyView {
        TallyView { sent: self.sent as nat, received: self.received as nat, samples: self.samples@ }
    }
}

impl ProbeTally {
    pub closed spec fn wf(&self) -> bool {
        &&& self.received <= self.sent
        &&& self.sent <= MAX_SAMPLES
        &&& self.samples@.len() == self.received
        &&& self.online.wf()
        &&& self.online@ == self.samples@
        &&& forall|i: int| 0 <= i < self.samples@.len() ==> #[trigger] self.samples@[i] <= MAX_SAMPLE_US
    }

    pub fn new() -> (r: ProbeTally)
        ensures
            r.wf(),
            r@ == (TallyView { sent: 0, received: 0, samples: Seq::empty() }),
    {
        ProbeTally { sent: 0, received: 0, samples: Vec::new(), online: OnlineStats::new() }
    }

    pub fn sent(&self) -> (r: u64)
        ensures
            r as nat == self@.sent,
    {
        self.sent
    }

    pub fn received(&self) -> (r: u64)
        ensures
            r as nat == self@.received,
    {
        self.received
    }

    /// Whether another attempt can be counted.
    pub fn has_room(&self) -> (r: bool)
        requires
            self.wf(),
        ensures
            r == (self@.sent < MAX_SAMPLES),
    {
        self.sent < MAX_SAMPLES
    }

    /// Counts one attempt: `Some(rtt)` when it was answered after `rtt` µs, `None` on
    /// a timeout or a failed or unmatched reply.
    pub fn record(&mut self, outcome: Option<u64>)
        requires
            old(self).wf(),
            old(self)@.sent < MAX_SAMPLES,
        ensures
            final(self).wf(),
            final(self)@ == record_spec(old(self)@, outcome),
    {
        self.sent = self.sent + 1;
        match outcome {
            Some(us) => {
                let v = clamp_rtt(us);
                self.received = self.received + 1;
                self.samples.push(v);
                self.online.push(v);
            },
            None => {},
        }
    }

    /// Summary of everything counted so far.
    pub fn summary(&self) -> (r: LatencySummary)
        requires
            self.wf(),
        ensures
            is_tally_summary(self@, r),
            r.received <= r.sent,
    {
        let j = self.online.stddev();
        latency_summary_from_samples(self.sent, self.received, &self.samples, j)
    }
}

/// Latency probing of one phase: standalone during the idle phase, or alongside a
/// transfer (`during`) to measure loaded latency.
pub struct LatencyProber {
    pub phase: Phase,
    pub during: Option<Phase>,
    pub duration_ms: u64,
    pub interval_ms: u64,
    pub timeout_ms: u64,
    pub tally: ProbeTally,
}

impl LatencyProber {
    pub open spec fn wf(&self) -> bool {
        self.tally.wf()
    }

    pub open spec fn tally_view(&self) -> TallyView {
        self.tally@
    }

    pub fn new(
        phase: Phase,
        during: Option<Phase>,
        duration_ms: u64,
        interval_ms: u64,
        timeout_ms: u64,
    ) -> (r: LatencyProber)
        ensures
            r.wf(),
            r.phase == phase,
            r.during == during,
            r.duration_ms == duration_ms,
            r.interval_ms == interval_ms,
            r.timeout_ms == timeout_ms,
            r.tally_view() == (TallyView { sent: 0, received: 0, samples: Seq::empty() }),
    {
        LatencyProber { phase, during, duration_ms, interval_ms, timeout_ms, tally: ProbeTally::new() }
    }

    /// Decision before each probe: probe, wait while paused, or stop when cancelled,
    /// out of time or out of room for more counts.
    pub fn next_action(&self, flags: ControlFlags, elapsed_ms: u64) -> (r: LoopAction)
        requires
            self.wf(),
        ensures
            self.tally_view().sent < MAX_SAMPLES ==> r == loop_action_spec(flags, elapsed_ms, self.duration_ms),
            self.tally_view().sent >= MAX_SAMPLES ==> r == LoopAction::Stop,
    {
        if !self.tally.has_room() {
            return LoopAction::Stop;
        }
        loop_action(flags, elapsed_ms, self.duration_ms)
    }

    /// Counts the outcome of one probe and gives the event that reports it.
    pub fn record(&mut self, outcome: Option<u64>) -> (ev: TestEvent)
        requires
            old(self).wf(),
            old(self).tally_view().sent < MAX_SAMPLES,
        ensures
            final(self).wf(),
            final(self).tally_view() == record_spec(old(self).tally_view(), outcome),
            final(self).phase == old(self).phase,
            final(self).during == old(self).during,
            final(self).duration_ms == old(self).duration_ms,
            ev == (TestEvent::LatencySample {
                phase: old(self).phase,
                during: old(self).during,
                rtt_us: match outcome {
                    Some(us) => Some(clamp_rtt_spec(us)),
                    None => None,
                },
                ok: outcome is Some,
            }),
    {
        self.tally.record(outcome);
        let rtt_us = match outcome {
            Some(us) => Some(clamp_rtt(us)),
            None => None,
        };
        TestEvent::LatencySample { phase: self.phase, during: self.during, rtt_us, ok: outcome.is_some() }
    }

    /// Summary of the phase's probes.
    pub fn summary(&self) -> (r: LatencySummary)
        requires
            self.wf(),
        ensures
            is_tally_summary(self.tally_view(), r),
            r.received <= r.sent,
    {
        self.tally.summary()
    }
}

/// The tally after one pass of a probe loop: an attempt is counted only when the
/// loop proceeds.
pub open spec fn probe_pass_spec(
    t: TallyView,
    flags: ControlFlags,
    elapsed_ms: u64,
    duration_ms: u64,
    outcome: Option<u64>,
) -> TallyView {
    if loop_action_spec(flags, elapsed_ms, duration_ms) == LoopAction::Proceed {
        record_spec(t, outcome)
    } else {
        t
    }
}

/// The tally after a series of passes, each with the flags, time and outcome seen.
pub open spec fn probe_passes_spec(
    t: TallyView,
    passes: Seq<(ControlFlags, u64, Option<u64>)>,
    duration_ms: u64,
) -> TallyView
    decreases passes.len(),
{
    if passes.len() == 0 {
        t
    } else {
        let p = passes.last();
        probe_pass_spec(probe_passes_spec(t, passes.drop_last(), duration_ms), p.0, p.1, duration_ms, p.2)
    }
}

/// Counters are frozen while a run is paused: over any series of passes during which
/// the pause flag is set, the sent and received counts and the samples stay as they
/// were, and they grow again only through passes after the pause.
pub proof fn lemma_pause_freezes_counters(
    t: TallyView,
    passes: Seq<(ControlFlags, u64, Option<u64>)>,
    duration_ms: u64,
)
    requires
        forall|i: int| 0 <= i < passes.len() ==> (#[trigger] passes[i]).0.paused,
    ensures
        probe_passes_spec(t, passes, duration_ms) == t,
    decreases passes.len(),
{
    if passes.len() > 0 {
        assert forall|i: int| 0 <= i < passes.drop_last().len() implies (
        #[trigger] passes.drop_last()[i]).0.paused by {
            assert(passes.drop_last()[i] == passes[i]);
        }
        lemma_pause_freezes_counters(t, passes.drop_last(), duration_ms);
        assert(passes.last() == passes[passes.len() - 1]);
    }
}

} // verus!
