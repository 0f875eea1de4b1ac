//! Throughput sampling and steady-state estimation. Times are milliseconds since
//! the start of the phase, byte counts are running totals over all workers.

use crate::control::{loop_action, loop_action_spec, ControlFlags, LoopAction};
use crate::model::{Phase, TestEvent, ThroughputSummary};
use vstd::prelude::*;

verus! {

/// Interval between two samples of the byte counter, in milliseconds.
pub const TICK_INTERVAL_MS: u64 = 200;

/// Shortest steady window that is trusted, in milliseconds.
pub const MIN_WINDOW_MS: u64 = 200;

/// Shortest ramp-up that is discarded, in milliseconds.
pub const MIN_RAMP_MS: u64 = 1000;

/// Size of the chunks an upload body is produced in.
pub const UPLOAD_CHUNK_SIZE: u64 = 64 * 1024;

/// Ramp-up discarded from a phase of `total_ms`: a fifth of it, and at least 1 s.
pub open spec fn ramp_ms_spec(total_ms: nat) -> nat {
    if total_ms / 5 >= MIN_RAMP_MS {
        total_ms / 5
    } else {
        MIN_RAMP_MS as nat
    }
}

/// `k` is the first sample taken at or after `t0`.
pub open spec fn is_first_at_or_after(s: Seq<(u64, u64)>, t0: int, k: int) -> bool {
    &&& 0 <= k < s.len()
    &&& s[k].0 >= t0
    &&& forall|j: int| 0 <= j < k ==> (#[trigger] s[j]).0 < t0
}

/// First sample taken at or after `t0`, or the first sample if none is.
pub open spec fn window_start(s: Seq<(u64, u64)>, t0: int) -> int {
    if exists|k: int| is_first_at_or_after(s, t0, k) {
        choose|k: int| is_first_at_or_after(s, t0, k)
    } else {
        0
    }
}

/// `a - b`, or 0 when `b` is larger.
pub open spec fn sat_sub(a: u64, b: u64) -> u64 {
    if a >= b {
        (a - b) as u64
    } else {
        0
    }
}

/// Bytes and duration of the steady window of the samples `(time, total bytes)`:
/// from the first sample after the ramp-up to the last sample. None with fewer
/// than two samples or a window under 200 ms.
pub open spec fn steady_window_spec(s: Seq<(u64, u64)>, total_ms: u64) -> Option<(u64, u64)> {
    if s.len() < 2 {
        None
    } else {
        let k = window_start(s, s[0].0 + ramp_ms_spec(total_ms as nat));
        let dt = sat_sub(s.last().0, s[k].0);
        if dt < MIN_WINDOW_MS {
            None
        } else {
            Some((sat_sub(s.last().1, s[k].1), dt))
        }
    }
}

fn saturating_sub(a: u64, b: u64) -> (r: u64)
    ensures
        r == sat_sub(a, b),
{
    if a >= b {
        a - b
    } else {
        0
    }
}

/// Bytes moved and time taken in the steady part of a phase that lasted `total_ms`.
pub fn estimate_steady_window(samples: &Vec<(u64, u64)>, total_ms: u64) -> (r: Option<(u64, u64)>)
    ensures
        r == steady_window_spec(samples@, total_ms),
{
    let n = samples.len();
    if n < 2 {
        return None;
    }
    let fifth = total_ms / 5;
    let ramp: u64 = if fifth >= MIN_RAMP_MS {
        fifth
    } else {
        MIN_RAMP_MS
    };
    let t0: u128 = samples[0].0 as u128 + ramp as u128;
    let ghost s = samples@;
    let mut k: usize = 0;
    let mut found = false;
    let mut i: usize = 0;
    while i < n && !found
        invariant
            n == s.len(),
            s == samples@,
            i <= n,
            t0 == s[0].0 + ramp_ms_spec(total_ms as nat),
            !found ==> forall|j: int| 0 <= j < i ==> (#[trigger] s[j]).0 < t0,
            !found ==> k == 0,
            found ==> is_first_at_or_after(s, t0 as int, k as int),
        decreases n - i,
    {
        if samples[i].0 as u128 >= t0 {
            k = i;
            found = true;
        }
        i = i + 1;
    }
    proof {
        if found {
            assert forall|m: int| is_first_at_or_after(s, t0 as int, m) implies m == k by {
                if m < k {
                    assert(s[m].0 < t0);
                } else if m > k {
                    assert(s[k as int].0 >= t0);
                }
            }
        } else {
            assert forall|m: int| !is_first_at_or_after(s, t0 as int, m) by {
                if 0 <= m < s.len() {
                    assert(s[m].0 < t0);
                }
            }
        }
    }
    let (t_start, b_start) = samples[k];
    let (t_end, b_end) = samples[n - 1];
    let dt = saturating_sub(t_end, t_start);
    if dt < MIN_WINDOW_MS {
        return None;
    }
    Some((saturating_sub(b_end, b_start), dt))
}

/// Bits per second of `bytes` moved in `duration_ms` (taken as 1 ms when 0),
/// rounded down and capped at `u64::MAX`.
pub open spec fn bits_per_sec_spec(bytes: u64, duration_ms: u64) -> u64 {
    let d: int = if duration_ms == 0 {
        1
    } else {
        duration_ms as int
    };
    let v = bytes * 8000 / d;
    if v > u64::MAX {
        u64::MAX
    } else {
        v as u64
    }
}

/// Throughput of `bytes` moved in `duration_ms`.
pub fn throughput_summary(bytes: u64, duration_ms: u64) -> (r: ThroughputSummary)
    ensures
        r.bytes == bytes,
        r.duration_ms == duration_ms,
        r.bits_per_sec == bits_per_sec_spec(bytes, duration_ms),
{
    let d: u128 = if duration_ms == 0 {
        1
    } else {
        duration_ms as u128
    };
    let v: u128 = (bytes as u128) * 8000 / d;
    let bps: u64 = if v > u64::MAX as u128 {
        u64::MAX
    } else {
        v as u64
    };
    ThroughputSummary { bytes, duration_ms, bits_per_sec: bps }
}

/// Summary of a phase: the steady window when there is one, else the whole phase.
pub open spec fn phase_summary_spec(s: Seq<(u64, u64)>, elapsed_ms: u64, bytes_total: u64) -> (u64, u64) {
    match steady_window_spec(s, elapsed_ms) {
        Some(w) => w,
        None => (bytes_total, elapsed_ms),
    }
}

/// Whole-phase throughput from the counter samples, the phase's length and the
/// final byte count.
pub fn phase_throughput(samples: &Vec<(u64, u64)>, elapsed_ms: u64, bytes_total: u64) -> (r: ThroughputSummary)
    ensures
        (r.bytes, r.duration_ms) == phase_summary_spec(samples@, elapsed_ms, bytes_total),
        r.bits_per_sec == bits_per_sec_spec(r.bytes, r.duration_ms),
{
    let (bytes, window) = match estimate_steady_window(samples, elapsed_ms) {
        Some(w) => w,
        None => (bytes_total, elapsed_ms),
    };
    throughput_summary(bytes, window)
}

/// Bytes per second between two samples, rounded down; the interval is taken as
/// 1 ms when it is 0 and the bytes as 0 when the counter went back.
pub open spec fn instant_rate_spec(prev_t: u64, prev_b: u64, t: u64, b: u64) -> u64 {
    let dt: int = if t > prev_t {
        t - prev_t
    } else {
        1
    };
    let v = sat_sub(b, prev_b) * 1000 / dt;
    if v > u64::MAX {
        u64::MAX
    } else {
        v as u64
    }
}

/// Samples of the shared byte counter during one transfer phase.
pub struct ThroughputMeter {
    pub phase: Phase,
    pub duration_ms: u64,
    pub last_t: u64,
    pub last_bytes: u64,
    pub samples: Vec<(u64, u64)>,
}

impl ThroughputMeter {
    pub open spec fn samples_view(&self) -> Seq<(u64, u64)> {
        self.samples@
    }

    pub open spec fn last_view(&self) -> (u64, u64) {
        (self.last_t, self.last_bytes)
    }

    pub fn new(phase: Phase, duration_ms: u64) -> (r: ThroughputMeter)
        ensures
            r.phase == phase,
            r.duration_ms == duration_ms,
            r.samples_view() == Seq::<(u64, u64)>::empty(),
            r.last_view() == (0u64, 0u64),
    {
        ThroughputMeter { phase, duration_ms, last_t: 0, last_bytes: 0, samples: Vec::new() }
    }

    /// Decision before each sample: sample, wait while paused, or stop.
    pub fn next_action(&self, flags: ControlFlags, elapsed_ms: u64) -> (r: LoopAction)
        ensures
            r == loop_action_spec(flags, elapsed_ms, self.duration_ms),
    {
        loop_action(flags, elapsed_ms, self.duration_ms)
    }

    /// Records the counter's value `bytes_total` at `now_ms` and gives the tick to
    /// report, with the rate since the previous sample.
    pub fn tick(&mut self, now_ms: u64, bytes_total: u64) -> (ev: TestEvent)
        ensures
            final(self).phase == old(self).phase,
            final(self).duration_ms == old(self).duration_ms,
            final(self).samples_view() == old(self).samples_view().push((now_ms, bytes_total)),
            final(self).last_view() == (now_ms, bytes_total),
            ev == (TestEvent::ThroughputTick {
                phase: old(self).phase,
                bytes_total,
                bytes_per_sec_instant: instant_rate_spec(
                    old(self).last_view().0,
                    old(self).last_view().1,
                    now_ms,
                    bytes_total,
                ),
            }),
    {
        let dt: u128 = if now_ms > self.last_t {
            (now_ms - self.last_t) as u128
        } else {
            1
        };
        let db: u128 = saturating_sub(bytes_total, self.last_bytes) as u128;
        let rate: u128 = db * 1000 / dt;
        let rate: u64 = if rate > u64::MAX as u128 {
            u64::MAX
        } else {
            rate as u64
        };
        self.last_t = now_ms;
        self.last_bytes = bytes_total;
        self.samples.push((now_ms, bytes_total));
        TestEvent::ThroughputTick { phase: self.phase, bytes_total, bytes_per_sec_instant: rate }
    }

    /// Summary of the phase once it lasted `elapsed_ms` and moved `bytes_total`.
    pub fn finish(&self, elapsed_ms: u64, bytes_total: u64) -> (r: ThroughputSummary)
        ensures
            (r.bytes, r.duration_ms) == phase_summary_spec(self.samples_view(), elapsed_ms, bytes_total),
            r.bits_per_sec == bits_per_sec_spec(r.bytes, r.duration_ms),
    {
        phase_throughput(&self.samples, elapsed_ms, bytes_total)
    }
}

/// When the byte counter grows at a constant `rate` (bytes per millisecond) from
/// the start of the steady window to the last sample, the phase's throughput is
/// exactly that rate, whatever the samples of the ramp-up hold.
pub proof fn lemma_steady_rate_recovered(s: Seq<(u64, u64)>, total_ms: u64, rate: nat)
    requires
        s.len() >= 2,
        ({
            let k = window_start(s, s[0].0 + ramp_ms_spec(total_ms as nat));
            &&& s.last().0 >= s[k].0 + MIN_WINDOW_MS
            &&& s.last().1 == s[k].1 + rate * (s.last().0 - s[k].0)
        }),
        rate * 8000 <= u64::MAX,
    ensures
        ({
            let (bytes, dur) = phase_summary_spec(s, total_ms, 0);
            bits_per_sec_spec(bytes, dur) == rate * 8000
        }),
{
    let k = window_start(s, s[0].0 + ramp_ms_spec(total_ms as nat));
    let dt = s.last().0 - s[k].0;
    assert(sat_sub(s.last().0, s[k].0) == dt);
    assert(sat_sub(s.last().1, s[k].1) == rate * dt);
    let w = steady_window_spec(s, total_ms);
    assert(w == Some(((rate * dt) as u64, dt as u64)));
    assert((rate * dt) * 8000 == (rate * 8000) * dt) by (nonlinear_arith);
    vstd::arithmetic::div_mod::lemma_div_multiples_vanish((rate * 8000) as int, dt as int);
}

/// Full chunks and the size of the last partial chunk of an upload body of `bytes`.
pub fn upload_chunks(bytes: u64) -> (r: (u64, u64))
    ensures
        r.0 * UPLOAD_CHUNK_SIZE + r.1 == bytes,
        r.1 < UPLOAD_CHUNK_SIZE,
{
    let full = bytes / UPLOAD_CHUNK_SIZE;
    let tail = bytes % UPLOAD_CHUNK_SIZE;
    (full, tail)
}

} // verus!
