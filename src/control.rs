//! Pause and cancel state shared by every measurement loop, and the order of phases.

use crate::model::{
    ExperimentalUdpSummary, LatencySummary, Phase, RunConfig, RunResult, ThroughputSummary, TurnInfo,
};
use crate::stats::{is_summary_of, latency_summary_from_samples};
use crate::throughput::throughput_summary;
use vstd::prelude::*;

verus! {

/// Message to a running engine.
#[derive(Debug, Clone, Copy, PartialEq, Eq, Structural)]
pub enum EngineControl {
    Pause(bool),
    Cancel,
}

/// The two flags that every loop of a run polls.
#[derive(Debug, Clone, Copy, PartialEq, Eq, Structural)]
pub struct ControlFlags {
    pub paused: bool,
    pub cancelled: bool,
}

impl ControlFlags {
    pub fn new() -> (r: ControlFlags)
        ensures
            !r.paused,
            !r.cancelled,
    {
        ControlFlags { paused: false, cancelled: false }
    }

    /// Applies one control message. Returns whether the listener keeps reading
    /// messages: it stops after a cancel, which is final.
    pub fn apply(&mut self, msg: EngineControl) -> (listen: bool)
        ensures
            match msg {
                EngineControl::Pause(p) => final(self).paused == p && final(self).cancelled
                    == old(self).cancelled && listen,
                EngineControl::Cancel => final(self).cancelled && final(self).paused
                    == old(self).paused && !listen,
            },
    {
        match msg {
            EngineControl::Pause(p) => {
                self.paused = p;
                true
            },
            EngineControl::Cancel => {
                self.cancelled = true;
                false
            },
        }
    }
}

/// What a measurement loop does at its next check.
#[derive(Debug, Clone, Copy, PartialEq, Eq, Structural)]
pub enum LoopAction {
    /// Issue the next unit of work.
    Proceed,
    /// Paused: sleep a short while and check again, without counting anything.
    Wait,
    /// Cancelled or out of time: leave the loop.
    Stop,
}

pub open spec fn loop_action_spec(flags: ControlFlags, elapsed_ms: u64, duration_ms: u64) -> LoopAction {
    if flags.cancelled || elapsed_ms >= duration_ms {
        LoopAction::Stop
    } else if flags.paused {
        LoopAction::Wait
    } else {
        LoopAction::Proceed
    }
}

/// Decision taken before each unit of work of a phase that lasts `duration_ms`.
pub fn loop_action(flags: ControlFlags, elapsed_ms: u64, duration_ms: u64) -> (r: LoopAction)
    ensures
        r == loop_action_spec(flags, elapsed_ms, duration_ms),
{
    if flags.cancelled || elapsed_ms >= duration_ms {
        LoopAction::Stop
    } else if flags.paused {
        LoopAction::Wait
    } else {
        LoopAction::Proceed
    }
}

/// A cancelled run does no more work in any loop, whatever else holds.
pub proof fn lemma_cancel_stops_every_loop(flags: ControlFlags, elapsed_ms: u64, duration_ms: u64)
    requires
        flags.cancelled,
    ensures
        loop_action_spec(flags, elapsed_ms, duration_ms) == LoopAction::Stop,
{
}

/// Phase that follows `p`; the packet-loss phase runs only in experimental runs.
pub open spec fn next_phase_spec(p: Phase, experimental: bool) -> Option<Phase> {
    match p {
        Phase::IdleLatency => Some(Phase::Download),
        Phase::Download => Some(Phase::Upload),
        Phase::Upload => if experimental {
            Some(Phase::PacketLoss)
        } else {
            Some(Phase::Summary)
        },
        Phase::PacketLoss => Some(Phase::Summary),
        Phase::Summary => None,
    }
}

/// Position of a phase in a run.
pub open spec fn phase_rank(p: Phase) -> nat {
    match p {
        Phase::IdleLatency => 0,
        Phase::Download => 1,
        Phase::Upload => 2,
        Phase::PacketLoss => 3,
        Phase::Summary => 4,
    }
}

/// Phase that follows `p`, if any.
pub fn next_phase(p: Phase, experimental: bool) -> (r: Option<Phase>)
    ensures
        r == next_phase_spec(p, experimental),
{
    match p {
        Phase::IdleLatency => Some(Phase::Download),
        Phase::Download => Some(Phase::Upload),
        Phase::Upload => if experimental {
            Some(Phase::PacketLoss)
        } else {
            Some(Phase::Summary)
        },
        Phase::PacketLoss => Some(Phase::Summary),
        Phase::Summary => None,
    }
}

/// Phases only move forward: none is entered twice in one run.
pub proof fn lemma_phases_move_forward(p: Phase, experimental: bool)
    ensures
        next_phase_spec(p, experimental) matches Some(q) ==> phase_rank(p) < phase_rank(q),
{
}

/// A run that is not experimental never enters the packet-loss phase, so only the
/// loss phase's output can set a TURN descriptor or a UDP result.
pub proof fn lemma_plain_run_skips_loss_probe(p: Phase)
    ensures
        next_phase_spec(p, false) != Some(Phase::PacketLoss),
        output_fits(p, PhaseOutput::Loss(None, None)) <==> p == Phase::PacketLoss,
{
}

/// Query value that tags a latency probe with the phase it runs during.
pub fn phase_query_str(p: Phase) -> (r: Option<&'static str>)
    ensures
        p == Phase::Download ==> r == Some("download"),
        p == Phase::Upload ==> r == Some("upload"),
        p != Phase::Download && p != Phase::Upload ==> r is None,
{
    match p {
        Phase::Download => Some("download"),
        Phase::Upload => Some("upload"),
        _ => None,
    }
}

/// A measurement run, holding its configuration.
pub struct TestEngine {
    cfg: RunConfig,
}

impl TestEngine {
    pub fn new(cfg: RunConfig) -> (r: TestEngine)
        ensures
            r.config() == cfg,
    {
        TestEngine { cfg }
    }

    pub closed spec fn config(&self) -> RunConfig {
        self.cfg
    }

    /// The configuration that the run was made with.
    pub fn cfg(&self) -> (r: &RunConfig)
        ensures
            *r == self.config(),
    {
        &self.cfg
    }
}


/// What one phase produced.
pub enum PhaseOutput {
    /// Idle latency.
    Latency(LatencySummary),
    /// A transfer and the latency measured under it.
    Transfer(ThroughputSummary, LatencySummary),
    /// The TURN descriptor, when it could be fetched, and the loss probe's result.
    Loss(Option<TurnInfo>, Option<ExperimentalUdpSummary>),
    /// Nothing: the summary phase.
    Done,
}

/// `o` is the kind of output that phase `p` produces.
pub open spec fn output_fits(p: Phase, o: PhaseOutput) -> bool {
    match p {
        Phase::IdleLatency => o is Latency,
        Phase::Download | Phase::Upload => o is Transfer,
        Phase::PacketLoss => o is Loss,
        Phase::Summary => o is Done,
    }
}

/// The summaries of a run as its phases complete; phases that have not run hold
/// empty summaries.
pub struct RunProgress {
    pub phase: Option<Phase>,
    pub experimental: bool,
    pub idle_latency: LatencySummary,
    pub download: ThroughputSummary,
    pub upload: ThroughputSummary,
    pub loaded_latency_download: LatencySummary,
    pub loaded_latency_upload: LatencySummary,
    pub turn: Option<TurnInfo>,
    pub experimental_udp: Option<ExperimentalUdpSummary>,
}

impl RunProgress {
    /// A run that starts with the idle-latency phase.
    pub fn new(experimental: bool) -> (r: RunProgress)
        ensures
            r.phase == Some(Phase::IdleLatency),
            r.experimental == experimental,
            is_summary_of(0, 0, Seq::empty(), None, r.idle_latency),
            is_summary_of(0, 0, Seq::empty(), None, r.loaded_latency_download),
            is_summary_of(0, 0, Seq::empty(), None, r.loaded_latency_upload),
            r.download == (ThroughputSummary { bytes: 0, duration_ms: 0, bits_per_sec: 0 }),
            r.upload == (ThroughputSummary { bytes: 0, duration_ms: 0, bits_per_sec: 0 }),
            r.turn is None,
            r.experimental_udp is None,
    {
        let empty: Vec<u64> = Vec::new();
        assert(empty@ =~= Seq::<u64>::empty());
        let none = throughput_summary(0, 0);
        RunProgress {
            phase: Some(Phase::IdleLatency),
            experimental,
            idle_latency: latency_summary_from_samples(0, 0, &empty, None),
            download: none,
            upload: none,
            loaded_latency_download: latency_summary_from_samples(0, 0, &empty, None),
            loaded_latency_upload: latency_summary_from_samples(0, 0, &empty, None),
            turn: None,
            experimental_udp: None,
        }
    }

    /// Stores what the current phase produced and moves to the next phase.
    pub fn complete_phase(&mut self, out: PhaseOutput)
        requires
            old(self).phase matches Some(p) && output_fits(p, out),
        ensures
            ({
                let np = next_phase_spec(old(self).phase.unwrap(), old(self).experimental);
                match out {
                    PhaseOutput::Latency(l) => *final(self) == (RunProgress {
                        phase: np,
                        idle_latency: l,
                        ..*old(self)
                    }),
                    PhaseOutput::Transfer(t, l) => if old(self).phase == Some(Phase::Download) {
                        *final(self) == (RunProgress {
                            phase: np,
                            download: t,
                            loaded_latency_download: l,
                            ..*old(self)
                        })
                    } else {
                        *final(self) == (RunProgress {
                            phase: np,
                            upload: t,
                            loaded_latency_upload: l,
                            ..*old(self)
                        })
                    },
                    PhaseOutput::Loss(turn, udp) => *final(self) == (RunProgress {
                        phase: np,
                        turn: turn,
                        experimental_udp: udp,
                        ..*old(self)
                    }),
                    PhaseOutput::Done => *final(self) == (RunProgress { phase: np, ..*old(self) }),
                }
            }),
    {
        let p = self.phase.unwrap();
        match out {
            PhaseOutput::Latency(l) => {
                self.idle_latency = l;
            },
            PhaseOutput::Transfer(t, l) => {
                if p == Phase::Download {
                    self.download = t;
                    self.loaded_latency_download = l;
                } else {
                    self.upload = t;
                    self.loaded_latency_upload = l;
                }
            },
            PhaseOutput::Loss(turn, udp) => {
                self.turn = turn;
                self.experimental_udp = udp;
            },
            PhaseOutput::Done => {},
        }
        self.phase = next_phase(p, self.experimental);
    }

    /// The result of the run, with what was collected.
    pub fn into_result(
        self,
        cfg: &RunConfig,
        timestamp_utc: String,
        meta: Option<String>,
        server: Option<String>,
    ) -> (r: RunResult)
        ensures
            r.timestamp_utc == timestamp_utc,
            r.base_url == cfg.base_url,
            r.meas_id == cfg.meas_id,
            r.meta == meta,
            r.server == server,
            r.idle_latency == self.idle_latency,
            r.download == self.download,
            r.upload == self.upload,
            r.loaded_latency_download == self.loaded_latency_download,
            r.loaded_latency_upload == self.loaded_latency_upload,
            r.turn == self.turn,
            r.experimental_udp == self.experimental_udp,
            r.ip is None && r.colo is None && r.asn is None && r.as_org is None,
            r.interface_name is None && r.network_name is None && r.is_wireless is None,
            r.interface_mac is None && r.link_speed_mbps is None,
    {
        RunResult {
            timestamp_utc,
            base_url: cfg.base_url.clone(),
            meas_id: cfg.meas_id.clone(),
            meta,
            server,
            idle_latency: self.idle_latency,
            download: self.download,
            upload: self.upload,
            loaded_latency_download: self.loaded_latency_download,
            loaded_latency_upload: self.loaded_latency_upload,
            turn: self.turn,
            experimental_udp: self.experimental_udp,
            ip: None,
            colo: None,
            asn: None,
            as_org: None,
            interface_name: None,
            network_name: None,
            is_wireless: None,
            interface_mac: None,
            link_speed_mbps: None,
        }
    }
}

} // verus!
