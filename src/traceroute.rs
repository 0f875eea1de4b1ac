//! Decisions of an ICMP traceroute: which probe to send next, what each reply
//! means for the hop, when a hop is complete and when the walk ends.

use crate::icmp::{is_echo_reply, probe_seq, probe_seq_spec};
use crate::model::{TracerouteHop, TracerouteSummary};
use vstd::prelude::*;

verus! {

/// Echo requests sent for each TTL.
pub const PROBES_PER_HOP: u8 = 3;

/// Time to wait for each reply, in milliseconds.
pub const ICMP_PROBE_TIMEOUT_MS: u64 = 2000;

/// Outcome of one echo request.
#[derive(Debug, Clone)]
pub enum ProbeOutcome {
    /// A reply from `from`; `icmp_type` when the reply was long enough to hold it.
    Reply { from: String, icmp_type: Option<u8>, rtt_us: u64 },
    /// No reply within the timeout, or a receive error.
    Timeout,
    /// The request could not be sent.
    SendFailed,
}

pub open spec fn opt_view(o: Option<String>) -> Option<Seq<char>> {
    match o {
        Some(s) => Some(s@),
        None => None,
    }
}

fn copy_opt_string(o: &Option<String>) -> (r: Option<String>)
    ensures
        opt_view(r) == opt_view(*o),
{
    match o {
        Some(s) => Some(s.clone()),
        None => None,
    }
}

fn copy_u64s(v: &Vec<u64>) -> (r: Vec<u64>)
    ensures
        r@ == v@,
{
    let mut r: Vec<u64> = Vec::new();
    let mut i: usize = 0;
    while i < v.len()
        invariant
            i <= v@.len(),
            r@ == v@.take(i as int),
        decreases v@.len() - i,
    {
        r.push(v[i]);
        i = i + 1;
        assert(r@ =~= v@.take(i as int));
    }
    assert(v@.take(i as int) =~= v@);
    r
}

/// A copy of a hop.
pub fn copy_hop(h: &TracerouteHop) -> (r: TracerouteHop)
    ensures
        hop_view(r) == hop_view(*h),
{
    TracerouteHop {
        hop_number: h.hop_number,
        ip_address: copy_opt_string(&h.ip_address),
        hostname: copy_opt_string(&h.hostname),
        rtt_us: copy_u64s(&h.rtt_us),
        timeout: h.timeout,
    }
}

/// A hop as plain values.
pub ghost struct HopView {
    pub hop_number: u8,
    pub ip: Option<Seq<char>>,
    pub hostname: Option<Seq<char>>,
    pub rtts: Seq<u64>,
    pub timeout: bool,
}

pub open spec fn hop_view(h: TracerouteHop) -> HopView {
    HopView {
        hop_number: h.hop_number,
        ip: opt_view(h.ip_address),
        hostname: opt_view(h.hostname),
        rtts: h.rtt_us@,
        timeout: h.timeout,
    }
}

/// State of a walk as plain values.
pub ghost struct WalkView {
    pub ttl: u8,
    pub probe: u8,
    pub rtts: Seq<u64>,
    pub hop_ip: Option<Seq<char>>,
    pub saw_timeout: bool,
    pub completed: bool,
    pub finished: bool,
    pub hops: Seq<HopView>,
}

/// The hop in progress after one more outcome. The first replying address names
/// the hop; a reply from the destination, or an echo reply, completes the walk.
pub open spec fn absorb_spec(v: WalkView, dest: Seq<char>, o: ProbeOutcome) -> WalkView {
    match o {
        ProbeOutcome::Reply { from, icmp_type, rtt_us } => WalkView {
            rtts: v.rtts.push(rtt_us),
            hop_ip: if v.hop_ip is None {
                Some(from@)
            } else {
                v.hop_ip
            },
            completed: v.completed || from@ == dest || icmp_type == Some(0u8),
            probe: (v.probe + 1) as u8,
            ..v
        },
        ProbeOutcome::Timeout => WalkView { saw_timeout: true, probe: (v.probe + 1) as u8, ..v },
        ProbeOutcome::SendFailed => WalkView { probe: (v.probe + 1) as u8, ..v },
    }
}

/// The hop that a finished TTL gives: a timeout only when nothing answered.
pub open spec fn closed_hop_spec(v: WalkView) -> HopView {
    HopView {
        hop_number: v.ttl,
        ip: v.hop_ip,
        hostname: None,
        rtts: v.rtts,
        timeout: v.saw_timeout && v.hop_ip is None,
    }
}

/// One step of the walk: the outcome is absorbed; after the last probe of a TTL
/// the hop is closed and reported, and the walk ends when it completed or reached
/// `max_hops`, else moves to the next TTL.
pub open spec fn walk_step_spec(v: WalkView, max_hops: u8, dest: Seq<char>, o: ProbeOutcome) -> (WalkView, Option<HopView>) {
    let a = absorb_spec(v, dest, o);
    if a.probe < PROBES_PER_HOP {
        (a, None)
    } else {
        let hop = closed_hop_spec(a);
        let done = a.completed || a.ttl >= max_hops;
        (
            WalkView {
                ttl: if done {
                    a.ttl
                } else {
                    (a.ttl + 1) as u8
                },
                probe: 0,
                rtts: Seq::empty(),
                hop_ip: None,
                saw_timeout: false,
                completed: a.completed,
                finished: done,
                hops: a.hops.push(hop),
            },
            Some(hop),
        )
    }
}

/// An ICMP traceroute in progress.
pub struct TracerouteWalk {
    destination: String,
    max_hops: u8,
    ttl: u8,
    probe: u8,
    rtts: Vec<u64>,
    hop_ip: Option<String>,
    saw_timeout: bool,
    completed: bool,
    finished: bool,
    hops: Vec<TracerouteHop>,
}

impl TracerouteWalk {
    pub closed spec fn view(&self) -> WalkView {
        WalkView {
            ttl: self.ttl,
            probe: self.probe,
            rtts: self.rtts@,
            hop_ip: opt_view(self.hop_ip),
            saw_timeout: self.saw_timeout,
            completed: self.completed,
            finished: self.finished,
            hops: self.hops@.map_values(|h: TracerouteHop| hop_view(h)),
        }
    }

    pub closed spec fn destination_view(&self) -> Seq<char> {
        self.destination@
    }

    pub closed spec fn max_hops_view(&self) -> u8 {
        self.max_hops
    }

    pub closed spec fn wf(&self) -> bool {
        &&& self.probe < PROBES_PER_HOP
        &&& 1 <= self.ttl
        &&& !self.finished ==> self.ttl <= self.max_hops
    }

    /// A walk to `destination` over TTLs 1 to `max_hops`.
    pub fn new(destination: String, max_hops: u8) -> (r: TracerouteWalk)
        ensures
            r.wf(),
            r.destination_view() == destination@,
            r.max_hops_view() == max_hops,
            r.view() == (WalkView {
                ttl: 1,
                probe: 0,
                rtts: Seq::empty(),
                hop_ip: None,
                saw_timeout: false,
                completed: false,
                finished: max_hops == 0,
                hops: Seq::empty(),
            }),
    {
        let r = TracerouteWalk {
            destination,
            max_hops,
            ttl: 1,
            probe: 0,
            rtts: Vec::new(),
            hop_ip: None,
            saw_timeout: false,
            completed: false,
            finished: max_hops == 0,
            hops: Vec::new(),
        };
        assert(r.view().hops =~= Seq::<HopView>::empty());
        r
    }

    /// TTL and sequence number of the next echo request, or none once the walk ended.
    pub fn next_probe(&self) -> (r: Option<(u8, u16)>)
        requires
            self.wf(),
        ensures
            self.view().finished ==> r is None,
            !self.view().finished ==> r == Some((self.view().ttl, probe_seq_spec(self.view().ttl, self.view().probe))),
    {
        if self.finished {
            None
        } else {
            Some((self.ttl, probe_seq(self.ttl, self.probe)))
        }
    }

    pub fn is_finished(&self) -> (r: bool)
        ensures
            r == self.view().finished,
    {
        self.finished
    }

    /// Takes the outcome of the request that `next_probe` named, and gives the hop
    /// when it is complete.
    pub fn on_outcome(&mut self, outcome: ProbeOutcome) -> (r: Option<TracerouteHop>)
        requires
            old(self).wf(),
            !old(self).view().finished,
        ensures
            final(self).wf(),
            final(self).destination_view() == old(self).destination_view(),
            final(self).max_hops_view() == old(self).max_hops_view(),
            final(self).view() == walk_step_spec(
                old(self).view(),
                old(self).max_hops_view(),
                old(self).destination_view(),
                outcome,
            ).0,
            match r {
                Some(h) => walk_step_spec(
                    old(self).view(),
                    old(self).max_hops_view(),
                    old(self).destination_view(),
                    outcome,
                ).1 == Some(hop_view(h)),
                None => walk_step_spec(
                    old(self).view(),
                    old(self).max_hops_view(),
                    old(self).destination_view(),
                    outcome,
                ).1 is None,
            },
    {
        let ghost old_hops = self.hops@;
        match outcome {
            ProbeOutcome::Reply { from, icmp_type, rtt_us } => {
                self.rtts.push(rtt_us);
                let reached = from == self.destination;
                let echo = match icmp_type {
                    Some(t) => is_echo_reply(t),
                    None => false,
                };
                if reached || echo {
                    self.completed = true;
                }
                if self.hop_ip.is_none() {
                    self.hop_ip = Some(from);
                }
            },
            ProbeOutcome::Timeout => {
                self.saw_timeout = true;
            },
            ProbeOutcome::SendFailed => {},
        }
        self.probe = self.probe + 1;
        if self.probe < PROBES_PER_HOP {
            return None;
        }
        let mut rtts: Vec<u64> = Vec::new();
        core::mem::swap(&mut rtts, &mut self.rtts);
        let hop_ip = self.hop_ip.take();
        let timeout = self.saw_timeout && hop_ip.is_none();
        let hop = TracerouteHop {
            hop_number: self.ttl,
            ip_address: hop_ip,
            hostname: None,
            rtt_us: rtts,
            timeout,
        };
        self.hops.push(copy_hop(&hop));
        assert(self.hops@.map_values(|h: TracerouteHop| hop_view(h)) =~= old_hops.map_values(
            |h: TracerouteHop| hop_view(h),
        ).push(hop_view(hop)));
        self.probe = 0;
        self.saw_timeout = false;
        if self.completed || self.ttl >= self.max_hops {
            self.finished = true;
        } else {
            self.ttl = self.ttl + 1;
        }
        Some(hop)
    }

    /// The walk's result so far.
    pub fn summary(&self) -> (r: TracerouteSummary)
        ensures
            r.destination@ == self.destination_view(),
            r.completed == self.view().completed,
            r.hops@.map_values(|h: TracerouteHop| hop_view(h)) == self.view().hops,
    {
        let mut hops: Vec<TracerouteHop> = Vec::new();
        let mut i: usize = 0;
        while i < self.hops.len()
            invariant
                i <= self.hops@.len(),
                hops@.len() == i,
                forall|j: int| 0 <= j < i ==> hop_view(#[trigger] hops@[j]) == hop_view(self.hops@[j]),
            decreases self.hops@.len() - i,
        {
            hops.push(copy_hop(&self.hops[i]));
            i = i + 1;
        }
        assert(hops@.map_values(|h: TracerouteHop| hop_view(h)) =~= self.hops@.map_values(
            |h: TracerouteHop| hop_view(h),
        ));
        TracerouteSummary { destination: self.destination.clone(), hops, completed: self.completed }
    }
}

/// A TTL at which all probes timed out gives a hop marked as a timeout, with no
/// address and no round-trip times, and the walk goes on to the next TTL unless
/// it was the last.
pub proof fn lemma_silent_hop(v: WalkView, max_hops: u8, dest: Seq<char>)
    requires
        v.probe == 0,
        v.rtts.len() == 0,
        v.hop_ip is None,
        !v.completed,
        1 <= v.ttl < max_hops,
    ensures
        ({
            let s1 = walk_step_spec(v, max_hops, dest, ProbeOutcome::Timeout).0;
            let s2 = walk_step_spec(s1, max_hops, dest, ProbeOutcome::Timeout).0;
            let (s3, hop) = walk_step_spec(s2, max_hops, dest, ProbeOutcome::Timeout);
            &&& hop == Some(
                HopView { hop_number: v.ttl, ip: None, hostname: None, rtts: Seq::empty(), timeout: true },
            )
            &&& !s3.finished
            &&& s3.ttl == v.ttl + 1
            &&& s3.hops == v.hops.push(hop.unwrap())
        }),
{
    assert(v.rtts =~= Seq::<u64>::empty());
}


/// Once a reply came from the destination (or was an echo reply) at some TTL, the
/// last probe of that TTL closes its hop and ends the walk as completed: no
/// further TTL is probed.
pub proof fn lemma_destination_ends_walk(v: WalkView, max_hops: u8, dest: Seq<char>, o: ProbeOutcome)
    requires
        v.probe + 1 == PROBES_PER_HOP,
        v.completed || (o matches ProbeOutcome::Reply { from, icmp_type, rtt_us } && (from@ == dest
            || icmp_type == Some(0u8))),
    ensures
        ({
            let (w, hop) = walk_step_spec(v, max_hops, dest, o);
            &&& w.finished
            &&& w.completed
            &&& hop is Some
            &&& w.hops.len() == v.hops.len() + 1
            &&& hop.unwrap().hop_number == v.ttl
        }),
{
}

/// Every TTL gives exactly one hop: the probes before the last report nothing,
/// and the last one reports the hop.
pub proof fn lemma_one_hop_per_ttl(v: WalkView, max_hops: u8, dest: Seq<char>, o: ProbeOutcome)
    requires
        v.probe < PROBES_PER_HOP,
    ensures
        v.probe + 1 < PROBES_PER_HOP ==> walk_step_spec(v, max_hops, dest, o).1 is None
            && walk_step_spec(v, max_hops, dest, o).0.hops == v.hops,
        v.probe + 1 == PROBES_PER_HOP ==> walk_step_spec(v, max_hops, dest, o).1 is Some
            && walk_step_spec(v, max_hops, dest, o).0.hops.len() == v.hops.len() + 1,
{
}

} // verus!
