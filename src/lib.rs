//! Measurement engine of a network speed test: sample statistics, steady-state
//! throughput estimation, STUN and ICMP packet handling, traceroute decisions and
//! the pause/cancel control of measurement phases.

pub mod control;
pub mod icmp;
pub mod latency;
pub mod meta;
pub mod model;
pub mod stats;
pub mod stun;
pub mod text;
pub mod throughput;
pub mod trace_output;
pub mod traceroute;
