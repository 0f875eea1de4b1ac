//! Values that the engine takes in and hands out.

use vstd::prelude::*;

verus! {

/// Measurement phase. Phases run in the order listed.
#[derive(Debug, Clone, Copy, PartialEq, Eq, Structural)]
pub enum Phase {
    IdleLatency,
    Download,
    Upload,
    PacketLoss,
    Summary,
}

/// Parameters of one run. Durations and intervals are in milliseconds.
#[derive(Debug, Clone)]
pub struct RunConfig {
    pub base_url: String,
    pub meas_id: String,
    pub download_bytes_per_req: u64,
    pub upload_bytes_per_req: u64,
    pub concurrency: usize,
    pub idle_latency_duration_ms: u64,
    pub download_duration_ms: u64,
    pub upload_duration_ms: u64,
    pub probe_interval_ms: u64,
    pub probe_timeout_ms: u64,
    pub user_agent: String,
    pub experimental: bool,
    pub interface: Option<String>,
    pub source_ip: Option<String>,
}

/// ICE server descriptor returned by the service.
#[derive(Debug, Clone)]
pub struct TurnInfo {
    pub urls: Vec<String>,
    pub username: Option<String>,
    pub credential: Option<String>,
}

/// One ICE server entry of the service's TURN descriptor.
#[derive(Debug, Clone)]
pub struct IceServer {
    pub urls: Vec<String>,
    pub username: Option<String>,
    pub credential: Option<String>,
}

/// Network interface details supplied by the host.
#[derive(Debug, Clone)]
pub struct NetworkInfo {
    pub interface_name: Option<String>,
    pub network_name: Option<String>,
    pub is_wireless: Option<bool>,
    pub interface_mac: Option<String>,
    pub link_speed_mbps: Option<u64>,
}

/// Summary of one set of latency probes. Times are in microseconds, the loss in
/// parts per million.
#[derive(Debug, Clone, PartialEq, Eq, Structural)]
pub struct LatencySummary {
    pub sent: u64,
    pub received: u64,
    pub loss_ppm: u64,
    pub min_us: Option<u64>,
    pub p25_us: Option<u64>,
    pub p50_us: Option<u64>,
    pub p75_us: Option<u64>,
    pub p90_us: Option<u64>,
    pub p99_us: Option<u64>,
    pub max_us: Option<u64>,
    pub mean_us: Option<u64>,
    pub jitter_us: Option<u64>,
}

/// Summary of one throughput phase.
#[derive(Debug, Clone, Copy, PartialEq, Eq, Structural)]
pub struct ThroughputSummary {
    pub bytes: u64,
    pub duration_ms: u64,
    pub bits_per_sec: u64,
}

/// Result of the STUN loss probe.
#[derive(Debug, Clone)]
pub struct ExperimentalUdpSummary {
    pub target: Option<String>,
    pub latency: LatencySummary,
}

/// One hop of a traced path. Round-trip times are in microseconds.
#[derive(Debug, Clone)]
pub struct TracerouteHop {
    pub hop_number: u8,
    pub ip_address: Option<String>,
    pub hostname: Option<String>,
    pub rtt_us: Vec<u64>,
    pub timeout: bool,
}

/// A traced path.
#[derive(Debug, Clone)]
pub struct TracerouteSummary {
    pub destination: String,
    pub hops: Vec<TracerouteHop>,
    pub completed: bool,
}

/// Message from the engine to whoever presents the run.
#[derive(Debug, Clone)]
pub enum TestEvent {
    PhaseStarted { phase: Phase },
    LatencySample { phase: Phase, during: Option<Phase>, rtt_us: Option<u64>, ok: bool },
    ThroughputTick { phase: Phase, bytes_total: u64, bytes_per_sec_instant: u64 },
    Info { message: String },
    MetaInfo { meta: String },
    TracerouteHop { hop_number: u8, hop: TracerouteHop },
}

/// Everything a run produced. `meta` holds the service metadata as JSON text.
#[derive(Debug, Clone)]
pub struct RunResult {
    pub timestamp_utc: String,
    pub base_url: String,
    pub meas_id: String,
    pub meta: Option<String>,
    pub server: Option<String>,
    pub idle_latency: LatencySummary,
    pub download: ThroughputSummary,
    pub upload: ThroughputSummary,
    pub loaded_latency_download: LatencySummary,
    pub loaded_latency_upload: LatencySummary,
    pub turn: Option<TurnInfo>,
    pub experimental_udp: Option<ExperimentalUdpSummary>,
    pub ip: Option<String>,
    pub colo: Option<String>,
    pub asn: Option<String>,
    pub as_org: Option<String>,
    pub interface_name: Option<String>,
    pub network_name: Option<String>,
    pub is_wireless: Option<bool>,
    pub interface_mac: Option<String>,
    pub link_speed_mbps: Option<u64>,
}

/// Who the service saw: fields read from its metadata.
#[derive(Debug, Clone)]
pub struct ServiceIdentity {
    pub ip: Option<String>,
    pub colo: Option<String>,
    pub asn: Option<String>,
    pub as_org: Option<String>,
}

/// The result with the host's network details and, when the run had metadata,
/// the identity read from it; everything else is kept.
pub open spec fn enriched_spec(
    r: RunResult,
    info: NetworkInfo,
    identity: Option<ServiceIdentity>,
) -> RunResult {
    let with_net = RunResult {
        interface_name: info.interface_name,
        network_name: info.network_name,
        is_wireless: info.is_wireless,
        interface_mac: info.interface_mac,
        link_speed_mbps: info.link_speed_mbps,
        ..r
    };
    match identity {
        Some(id) => RunResult { ip: id.ip, colo: id.colo, asn: id.asn, as_org: id.as_org, ..with_net },
        None => with_net,
    }
}

fn copy_opt(o: &Option<String>) -> (r: Option<String>)
    ensures
        r == *o,
{
    match o {
        Some(s) => Some(s.clone()),
        None => None,
    }
}

/// Adds the host's network details and the service's view of the client to a
/// result.
pub fn enrich_result(result: RunResult, network_info: &NetworkInfo, identity: Option<ServiceIdentity>) -> (r: RunResult)
    ensures
        r == enriched_spec(result, *network_info, identity),
{
    let mut enriched = result;
    enriched.interface_name = copy_opt(&network_info.interface_name);
    enriched.network_name = copy_opt(&network_info.network_name);
    enriched.is_wireless = network_info.is_wireless;
    enriched.interface_mac = copy_opt(&network_info.interface_mac);
    enriched.link_speed_mbps = network_info.link_speed_mbps;
    match identity {
        Some(id) => {
            enriched.ip = id.ip;
            enriched.colo = id.colo;
            enriched.asn = id.asn;
            enriched.as_org = id.as_org;
        },
        None => {},
    }
    enriched
}

} // verus!
