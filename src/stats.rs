//! Latency sample statistics: loss ratio, order statistics and jitter.
//!
//! Round-trip times are held as whole microseconds.

use crate::model::LatencySummary;
use vstd::prelude::*;

verus! {

/// The loss ratio is reported in parts per million.
pub const LOSS_SCALE: u64 = 1_000_000;

/// Loss in parts per million: `(sent - received) / sent`, and 0 when nothing was sent.
pub open spec fn loss_ppm_spec(sent: nat, received: nat) -> nat {
    if sent == 0 {
        0
    } else {
        ((sent - received) * 1_000_000 / (sent as int)) as nat
    }
}

/// Share of probes that got no answer, in parts per million, rounded down.
pub fn loss_ppm(sent: u64, received: u64) -> (r: u64)
    requires
        received <= sent,
    ensures
        r as nat == loss_ppm_spec(sent as nat, received as nat),
        r <= LOSS_SCALE,
{
    if sent == 0 {
        0
    } else {
        let lost: u128 = (sent - received) as u128;
        let scaled: u128 = lost * 1_000_000;
        let r: u128 = scaled / (sent as u128);
        assert(r <= 1_000_000) by (nonlinear_arith)
            requires
                r == scaled / (sent as u128),
                scaled == lost * 1_000_000,
                lost <= sent,
                sent > 0,
        {
            assert(lost * 1_000_000 <= sent * 1_000_000);
            vstd::arithmetic::div_mod::lemma_div_is_ordered(
                (lost * 1_000_000) as int,
                (sent * 1_000_000) as int,
                sent as int,
            );
            vstd::arithmetic::div_mod::lemma_div_multiples_vanish(1_000_000, sent as int);
        }
        r as u64
    }
}


/// Number of samples that are at most `v`.
pub open spec fn count_le(s: Seq<u64>, v: u64) -> nat
    decreases s.len(),
{
    if s.len() == 0 {
        0
    } else {
        count_le(s.drop_last(), v) + if s.last() <= v {
            1nat
        } else {
            0nat
        }
    }
}

/// Nearest rank of the quantile `q / 1000` among `n` samples: `ceil(q * n / 1000)`,
/// and at least 1.
pub open spec fn rank_of(q_permille: nat, n: nat) -> nat {
    let r = (q_permille * n + 999) / 1000;
    if r == 0 {
        1
    } else {
        r as nat
    }
}

/// `v` is the smallest sample with at least `rank` samples at or below it.
pub open spec fn is_rank_value(s: Seq<u64>, rank: nat, v: u64) -> bool {
    &&& s.contains(v)
    &&& count_le(s, v) >= rank
    &&& forall|i: int| 0 <= i < s.len() && count_le(s, #[trigger] s[i]) >= rank ==> v <= s[i]
}

/// `v` is the `q / 1000` quantile of the samples, by nearest rank.
pub open spec fn is_quantile(s: Seq<u64>, q_permille: nat, v: u64) -> bool {
    is_rank_value(s, rank_of(q_permille, s.len()), v)
}

/// Smallest sample.
pub open spec fn is_min(s: Seq<u64>, v: u64) -> bool {
    s.contains(v) && forall|i: int| 0 <= i < s.len() ==> v <= #[trigger] s[i]
}

/// Largest sample.
pub open spec fn is_max(s: Seq<u64>, v: u64) -> bool {
    s.contains(v) && forall|i: int| 0 <= i < s.len() ==> #[trigger] s[i] <= v
}

proof fn lemma_count_le_bound(s: Seq<u64>, v: u64)
    ensures
        count_le(s, v) <= s.len(),
        (forall|i: int| 0 <= i < s.len() ==> #[trigger] s[i] <= v) ==> count_le(s, v) == s.len(),
    decreases s.len(),
{
    if s.len() > 0 {
        lemma_count_le_bound(s.drop_last(), v);
        if forall|i: int| 0 <= i < s.len() ==> #[trigger] s[i] <= v {
            assert forall|i: int| 0 <= i < s.drop_last().len() implies #[trigger] s.drop_last()[i]
                <= v by {
                assert(s.drop_last()[i] == s[i]);
            }
            assert(s.last() == s[s.len() - 1]);
        }
    }
}

proof fn lemma_rank_bounds(q_permille: nat, n: nat)
    requires
        q_permille <= 1000,
    ensures
        1 <= rank_of(q_permille, n),
        n > 0 ==> rank_of(q_permille, n) <= n,
{
    if n > 0 {
        assert(q_permille * n <= 1000 * n) by (nonlinear_arith)
            requires
                q_permille <= 1000,
        ;
        assert((q_permille * n + 999) / 1000 <= n) by (nonlinear_arith)
            requires
                q_permille * n <= 1000 * n,
        ;
    }
}

proof fn lemma_rank_monotone(q1: nat, q2: nat, n: nat)
    requires
        q1 <= q2,
    ensures
        rank_of(q1, n) <= rank_of(q2, n),
{
    assert(q1 * n <= q2 * n) by (nonlinear_arith)
        requires
            q1 <= q2,
    ;
    vstd::arithmetic::div_mod::lemma_div_is_ordered(
        (q1 * n + 999) as int,
        (q2 * n + 999) as int,
        1000,
    );
}

/// Number of samples at most `v`, counted over the whole vector.
fn count_at_most(samples: &Vec<u64>, v: u64) -> (r: u64)
    ensures
        r as nat == count_le(samples@, v),
{
    let mut c: u64 = 0;
    let mut i: usize = 0;
    while i < samples.len()
        invariant
            i <= samples@.len(),
            c as nat == count_le(samples@.take(i as int), v),
            c <= i,
        decreases samples@.len() - i,
    {
        proof {
            assert(samples@.take(i + 1).drop_last() =~= samples@.take(i as int));
            lemma_count_le_bound(samples@.take(i as int), v);
        }
        if samples[i] <= v {
            c = c + 1;
        }
        i = i + 1;
    }
    assert(samples@.take(i as int) =~= samples@);
    c
}

/// Largest sample.
pub fn max_sample(samples: &Vec<u64>) -> (r: u64)
    requires
        samples@.len() > 0,
    ensures
        is_max(samples@, r),
{
    let mut m: u64 = samples[0];
    let mut i: usize = 1;
    assert(samples@.take(1)[0] == m);
    while i < samples.len()
        invariant
            1 <= i <= samples@.len(),
            samples@.take(i as int).contains(m),
            forall|j: int| 0 <= j < i ==> #[trigger] samples@[j] <= m,
        decreases samples@.len() - i,
    {
        if samples[i] > m {
            m = samples[i];
            assert(samples@.take(i + 1)[i as int] == m);
        } else {
            let ghost k = choose|k: int| 0 <= k < i && samples@.take(i as int)[k] == m;
            assert(samples@.take(i + 1)[k] == m);
        }
        i = i + 1;
    }
    assert(samples@.take(i as int) =~= samples@);
    m
}

/// Smallest sample.
pub fn min_sample(samples: &Vec<u64>) -> (r: u64)
    requires
        samples@.len() > 0,
    ensures
        is_min(samples@, r),
{
    let mut m: u64 = samples[0];
    let mut i: usize = 1;
    assert(samples@.take(1)[0] == m);
    while i < samples.len()
        invariant
            1 <= i <= samples@.len(),
            samples@.take(i as int).contains(m),
            forall|j: int| 0 <= j < i ==> m <= #[trigger] samples@[j],
        decreases samples@.len() - i,
    {
        if samples[i] < m {
            m = samples[i];
            assert(samples@.take(i + 1)[i as int] == m);
        } else {
            let ghost k = choose|k: int| 0 <= k < i && samples@.take(i as int)[k] == m;
            assert(samples@.take(i + 1)[k] == m);
        }
        i = i + 1;
    }
    assert(samples@.take(i as int) =~= samples@);
    m
}

/// The `q / 1000` quantile of the samples by nearest rank: the smallest sample `v`
/// such that at least `ceil(q * n / 1000)` samples (and at least one) are at most `v`.
pub fn quantile(samples: &Vec<u64>, q_permille: u64) -> (r: u64)
    requires
        samples@.len() > 0,
        q_permille <= 1000,
    ensures
        is_quantile(samples@, q_permille as nat, r),
{
    let n: u64 = samples.len() as u64;
    let ghost rank = rank_of(q_permille as nat, n as nat);
    proof {
        lemma_rank_bounds(q_permille as nat, n as nat);
    }
    let prod: u128 = (q_permille as u128) * (n as u128) + 999;
    let rk0: u128 = prod / 1000;
    let rk: u64 = if rk0 == 0 {
        1
    } else {
        rk0 as u64
    };
    assert(rk as nat == rank);
    let mut best: u64 = max_sample(samples);
    proof {
        lemma_count_le_bound(samples@, best);
    }
    let mut i: usize = 0;
    while i < samples.len()
        invariant
            i <= samples@.len(),
            n as nat == samples@.len(),
            rk as nat == rank,
            samples@.contains(best),
            count_le(samples@, best) >= rank,
            forall|j: int| 0 <= j < i && count_le(samples@, #[trigger] samples@[j]) >= rank ==> best <= samples@[j],
        decreases samples@.len() - i,
    {
        let x = samples[i];
        if x < best {
            let c = count_at_most(samples, x);
            if c >= rk {
                best = x;
            }
        }
        i = i + 1;
    }
    best
}

/// Quantiles are ordered as their levels are, and lie between the smallest and the
/// largest sample.
pub proof fn lemma_quantiles_ordered(s: Seq<u64>, q1: nat, q2: nat, v1: u64, v2: u64, lo: u64, hi: u64)
    requires
        s.len() > 0,
        q1 <= q2 <= 1000,
        is_quantile(s, q1, v1),
        is_quantile(s, q2, v2),
        is_min(s, lo),
        is_max(s, hi),
    ensures
        lo <= v1 <= v2 <= hi,
{
    lemma_rank_monotone(q1, q2, s.len());
    let k = choose|k: int| 0 <= k < s.len() && s[k] == v2;
    assert(count_le(s, s[k]) >= rank_of(q1, s.len()));
    let k1 = choose|k: int| 0 <= k < s.len() && s[k] == v1;
    assert(lo <= s[k1]);
}


/// Largest round-trip time kept, in microseconds (60 s).
pub const MAX_SAMPLE_US: u64 = 60_000_000;

/// Smallest round-trip time kept, in microseconds.
pub const MIN_SAMPLE_US: u64 = 1;

/// Number of samples one accumulator takes.
pub const MAX_SAMPLES: u64 = 0xFFFF_FFFF;

pub open spec fn seq_sum(s: Seq<u64>) -> int
    decreases s.len(),
{
    if s.len() == 0 {
        0
    } else {
        seq_sum(s.drop_last()) + s.last()
    }
}

pub open spec fn seq_sum_sq(s: Seq<u64>) -> int
    decreases s.len(),
{
    if s.len() == 0 {
        0
    } else {
        seq_sum_sq(s.drop_last()) + s.last() * s.last()
    }
}

/// Sample variance `(n * sum(x^2) - sum(x)^2) / (n * (n - 1))`, rounded down.
pub open spec fn variance_floor(s: Seq<u64>) -> nat {
    let n = s.len() as int;
    let d = n * seq_sum_sq(s) - seq_sum(s) * seq_sum(s);
    if n < 2 || d < 0 {
        0
    } else {
        (d / (n * (n - 1))) as nat
    }
}

/// `r` is the integer square root of `v`.
pub open spec fn is_isqrt(v: nat, r: nat) -> bool {
    r * r <= v < (r + 1) * (r + 1)
}

/// Sample standard deviation of the samples, in whole microseconds; none under
/// two samples.
pub open spec fn is_jitter(s: Seq<u64>, r: Option<u64>) -> bool {
    if s.len() < 2 {
        r is None
    } else {
        r matches Some(j) && is_isqrt(variance_floor(s), j as nat)
    }
}

/// Running count, sum and sum of squares of round-trip times, from which the
/// jitter is computed without keeping the samples.
pub struct OnlineStats {
    n: u64,
    sum: u128,
    sum_sq: u128,
    samples: Ghost<Seq<u64>>,
}

impl View for OnlineStats {
    type V = Seq<u64>;

    closed spec fn view(&self) -> Seq<u64> {
        self.samples@
    }
}

impl OnlineStats {
    pub closed spec fn wf(&self) -> bool {
        &&& self.n as nat == self.samples@.len()
        &&& self.n <= MAX_SAMPLES
        &&& self.sum as int == seq_sum(self.samples@)
        &&& self.sum_sq as int == seq_sum_sq(self.samples@)
        &&& self.sum as int <= self.n * MAX_SAMPLE_US
        &&& self.sum_sq as int <= self.n * (MAX_SAMPLE_US * MAX_SAMPLE_US)
    }

    pub fn new() -> (r: OnlineStats)
        ensures
            r.wf(),
            r@ == Seq::<u64>::empty(),
    {
        OnlineStats { n: 0, sum: 0, sum_sq: 0, samples: Ghost(Seq::empty()) }
    }

    pub fn len(&self) -> (r: u64)
        requires
            self.wf(),
        ensures
            r as nat == self@.len(),
    {
        self.n
    }

    /// Adds one sample.
    pub fn push(&mut self, x: u64)
        requires
            old(self).wf(),
            old(self)@.len() < MAX_SAMPLES,
            x <= MAX_SAMPLE_US,
        ensures
            final(self).wf(),
            final(self)@ == old(self)@.push(x),
    {
        let ghost s0 = self.samples@;
        let ghost n0 = self.n;
        assert((x as u128) * (x as u128) <= MAX_SAMPLE_US * MAX_SAMPLE_US) by (nonlinear_arith)
            requires
                x <= MAX_SAMPLE_US,
        ;
        let xx: u128 = (x as u128) * (x as u128);
        assert(xx <= MAX_SAMPLE_US * MAX_SAMPLE_US) by (nonlinear_arith)
            requires
                xx == x * x,
                x <= MAX_SAMPLE_US,
        ;
        assert(self.sum + x <= (n0 + 1) * MAX_SAMPLE_US) by (nonlinear_arith)
            requires
                self.sum <= n0 * MAX_SAMPLE_US,
                x <= MAX_SAMPLE_US,
        ;
        assert(self.sum_sq + xx <= (n0 + 1) * (MAX_SAMPLE_US * MAX_SAMPLE_US)) by (nonlinear_arith)
            requires
                self.sum_sq <= n0 * (MAX_SAMPLE_US * MAX_SAMPLE_US),
                xx <= MAX_SAMPLE_US * MAX_SAMPLE_US,
        ;
        self.n = self.n + 1;
        self.sum = self.sum + x as u128;
        self.sum_sq = self.sum_sq + xx;
        self.samples = Ghost(s0.push(x));
        assert(self.samples@.drop_last() =~= s0);
    }

    /// Sample standard deviation, once two samples are in.
    pub fn stddev(&self) -> (r: Option<u64>)
        requires
            self.wf(),
        ensures
            is_jitter(self@, r),
    {
        if self.n < 2 {
            return None;
        }
        let n: u128 = self.n as u128;
        let sum = self.sum;
        let sum_sq = self.sum_sq;
        proof {
            lemma_products_fit(n as nat, sum as nat, sum_sq as nat);
        }
        let a: u128 = n * sum_sq;
        let b: u128 = sum * sum;
        let var: u128 = if a >= b {
            assert(n * (n - 1) <= MAX_SAMPLES * MAX_SAMPLES) by (nonlinear_arith)
                requires
                    2 <= n <= MAX_SAMPLES,
            ;
            let den: u128 = n * (n - 1);
            assert(den > 0) by (nonlinear_arith)
                requires
                    n >= 2,
                    den == n * (n - 1),
            ;
            (a - b) / den
        } else {
            0
        };
        assert(var <= 0x100_0000_0000_0000_0000_0000_0000_0000) by {
            if a >= b {
                vstd::arithmetic::div_mod::lemma_div_is_ordered_by_denominator((a - b) as int, 1, (n * (n - 1)) as int);
            }
        }
        Some(isqrt(var))
    }
}

proof fn lemma_products_fit(n: nat, sum: nat, sum_sq: nat)
    requires
        n <= MAX_SAMPLES,
        sum <= n * MAX_SAMPLE_US,
        sum_sq <= n * (MAX_SAMPLE_US * MAX_SAMPLE_US),
    ensures
        n * sum_sq <= 0x100_0000_0000_0000_0000_0000_0000_0000,
        sum * sum <= 0x100_0000_0000_0000_0000_0000_0000_0000,
{
    let c: nat = (MAX_SAMPLE_US * MAX_SAMPLE_US) as nat;
    assert(n * n <= MAX_SAMPLES * MAX_SAMPLES) by (nonlinear_arith)
        requires
            n <= MAX_SAMPLES,
    ;
    assert(n * sum_sq <= n * (n * c)) by (nonlinear_arith)
        requires
            sum_sq <= n * c,
    ;
    assert(n * (n * c) == (n * n) * c) by (nonlinear_arith);
    assert(c == 3_600_000_000_000_000);
    assert((MAX_SAMPLES * MAX_SAMPLES) * 3_600_000_000_000_000int <= 0x100_0000_0000_0000_0000_0000_0000_0000);
    assert((n * n) * c <= (MAX_SAMPLES * MAX_SAMPLES) * c) by (nonlinear_arith)
        requires
            n * n <= MAX_SAMPLES * MAX_SAMPLES,
    ;
    assert(sum * sum <= (n * MAX_SAMPLE_US) * (n * MAX_SAMPLE_US)) by (nonlinear_arith)
        requires
            sum <= n * MAX_SAMPLE_US,
    ;
    assert((n * MAX_SAMPLE_US) * (n * MAX_SAMPLE_US) == (n * n) * c) by (nonlinear_arith)
        requires
            c == MAX_SAMPLE_US * MAX_SAMPLE_US,
    ;
}

/// Integer square root by bisection.
pub fn isqrt(v: u128) -> (r: u64)
    requires
        v <= 0x100_0000_0000_0000_0000_0000_0000_0000,
    ensures
        is_isqrt(v as nat, r as nat),
{
    let mut lo: u128 = 0;
    let mut hi: u128 = 0x1000_0000_0000_0001;
    assert(hi * hi > v) by (nonlinear_arith)
        requires
            hi == 0x1000_0000_0000_0001,
            v <= 0x100_0000_0000_0000_0000_0000_0000_0000,
    ;
    while hi - lo > 1
        invariant
            lo < hi <= 0x1000_0000_0000_0001,
            lo * lo <= v,
            v < hi * hi,
        decreases hi - lo,
    {
        let mid: u128 = lo + (hi - lo) / 2;
        assert(mid * mid <= hi * hi) by (nonlinear_arith)
            requires
                mid <= hi,
        ;
        assert(hi * hi <= 0x1000_0000_0000_0001 * 0x1000_0000_0000_0001) by (nonlinear_arith)
            requires
                hi <= 0x1000_0000_0000_0001,
        ;
        if mid * mid <= v {
            lo = mid;
        } else {
            hi = mid;
        }
    }
    assert(hi == lo + 1);
    assert(lo < 0x1000_0000_0000_0001);
    lo as u64
}


/// Mean of the samples, rounded down.
pub open spec fn mean_spec(s: Seq<u64>) -> int {
    seq_sum(s) / (s.len() as int)
}

/// Mean of the samples, rounded down.
pub fn mean_sample(samples: &Vec<u64>) -> (r: u64)
    requires
        samples@.len() > 0,
    ensures
        r as int == mean_spec(samples@),
{
    let mut sum: u128 = 0;
    let mut i: usize = 0;
    while i < samples.len()
        invariant
            i <= samples@.len(),
            sum as int == seq_sum(samples@.take(i as int)),
            sum <= i * 0xFFFF_FFFF_FFFF_FFFFu64,
        decreases samples@.len() - i,
    {
        assert(samples@.take(i + 1).drop_last() =~= samples@.take(i as int));
        let x = samples[i];
        assert(sum + x <= (i + 1) * 0xFFFF_FFFF_FFFF_FFFFu64) by (nonlinear_arith)
            requires
                sum <= i * 0xFFFF_FFFF_FFFF_FFFFu64,
                x <= 0xFFFF_FFFF_FFFF_FFFFu64,
        ;
        assert((i + 1) * 0xFFFF_FFFF_FFFF_FFFFu64 <= 0x1_0000_0000_0000_0000 * 0xFFFF_FFFF_FFFF_FFFFu64) by (nonlinear_arith)
            requires
                i < 0x1_0000_0000_0000_0000,
        ;
        sum = sum + x as u128;
        i = i + 1;
    }
    assert(samples@.take(i as int) =~= samples@);
    let m: u128 = sum / (samples.len() as u128);
    assert(m <= sum);
    assert(m <= 0xFFFF_FFFF_FFFF_FFFF) by (nonlinear_arith)
        requires
            m == sum / (i as u128),
            sum <= i * 0xFFFF_FFFF_FFFF_FFFFu64,
            i > 0,
    {
        assert(sum < (i as int) * 0x1_0000_0000_0000_0000);
    }
    m as u64
}

/// `r` summarises `sent` probes, `received` of which were answered, with the
/// round-trip times `s` of the answered ones and the jitter computed alongside.
pub open spec fn is_summary_of(
    sent: u64,
    received: u64,
    s: Seq<u64>,
    jitter_us: Option<u64>,
    r: LatencySummary,
) -> bool {
    &&& r.sent == sent
    &&& r.received == received
    &&& r.loss_ppm as nat == loss_ppm_spec(sent as nat, received as nat)
    &&& r.jitter_us == jitter_us
    &&& if s.len() == 0 {
        &&& r.min_us is None
        &&& r.p25_us is None
        &&& r.p50_us is None
        &&& r.p75_us is None
        &&& r.p90_us is None
        &&& r.p99_us is None
        &&& r.max_us is None
        &&& r.mean_us is None
    } else {
        &&& r.min_us matches Some(v) && is_min(s, v)
        &&& r.p25_us matches Some(v) && is_quantile(s, 250, v)
        &&& r.p50_us matches Some(v) && is_quantile(s, 500, v)
        &&& r.p75_us matches Some(v) && is_quantile(s, 750, v)
        &&& r.p90_us matches Some(v) && is_quantile(s, 900, v)
        &&& r.p99_us matches Some(v) && is_quantile(s, 990, v)
        &&& r.max_us matches Some(v) && is_max(s, v)
        &&& r.mean_us matches Some(v) && v as int == mean_spec(s)
    }
}

/// Summary of a set of latency probes: counts, loss, order statistics and mean of
/// the answered round-trip times, and the given jitter. An empty sample set gives
/// no statistics.
pub fn latency_summary_from_samples(
    sent: u64,
    received: u64,
    samples_us: &Vec<u64>,
    jitter_us: Option<u64>,
) -> (r: LatencySummary)
    requires
        received <= sent,
    ensures
        is_summary_of(sent, received, samples_us@, jitter_us, r),
{
    let loss = loss_ppm(sent, received);
    if samples_us.len() == 0 {
        return LatencySummary {
            sent,
            received,
            loss_ppm: loss,
            min_us: None,
            p25_us: None,
            p50_us: None,
            p75_us: None,
            p90_us: None,
            p99_us: None,
            max_us: None,
            mean_us: None,
            jitter_us,
        };
    }
    LatencySummary {
        sent,
        received,
        loss_ppm: loss,
        min_us: Some(min_sample(samples_us)),
        p25_us: Some(quantile(samples_us, 250)),
        p50_us: Some(quantile(samples_us, 500)),
        p75_us: Some(quantile(samples_us, 750)),
        p90_us: Some(quantile(samples_us, 900)),
        p99_us: Some(quantile(samples_us, 990)),
        max_us: Some(max_sample(samples_us)),
        mean_us: Some(mean_sample(samples_us)),
        jitter_us,
    }
}

/// The loss of every summary lies between none and all, and is none when nothing
/// was sent.
pub proof fn lemma_loss_in_unit_range(sent: u64, received: u64, s: Seq<u64>, j: Option<u64>, r: LatencySummary)
    requires
        received <= sent,
        is_summary_of(sent, received, s, j, r),
    ensures
        r.loss_ppm <= LOSS_SCALE,
        sent == 0 ==> r.loss_ppm == 0,
{
    assert(((sent - received) as int) * 1_000_000 <= (sent as int) * 1_000_000) by (nonlinear_arith)
        requires
            received <= sent,
    ;
    if sent > 0 {
        vstd::arithmetic::div_mod::lemma_div_is_ordered(
            ((sent - received) as int) * 1_000_000,
            (sent as int) * 1_000_000,
            sent as int,
        );
        vstd::arithmetic::div_mod::lemma_div_multiples_vanish(1_000_000, sent as int);
    }
}

/// In every summary of a non-empty sample set, the minimum, the quartiles, the
/// median and the maximum are in that order.
pub proof fn lemma_summary_ordered(sent: u64, received: u64, s: Seq<u64>, j: Option<u64>, r: LatencySummary)
    requires
        received <= sent,
        s.len() > 0,
        is_summary_of(sent, received, s, j, r),
    ensures
        r.min_us.unwrap() <= r.p25_us.unwrap() <= r.p50_us.unwrap() <= r.p75_us.unwrap()
            <= r.p90_us.unwrap() <= r.p99_us.unwrap() <= r.max_us.unwrap(),
{
    let lo = r.min_us.unwrap();
    let hi = r.max_us.unwrap();
    lemma_quantiles_ordered(s, 250, 500, r.p25_us.unwrap(), r.p50_us.unwrap(), lo, hi);
    lemma_quantiles_ordered(s, 500, 750, r.p50_us.unwrap(), r.p75_us.unwrap(), lo, hi);
    lemma_quantiles_ordered(s, 750, 900, r.p75_us.unwrap(), r.p90_us.unwrap(), lo, hi);
    lemma_quantiles_ordered(s, 900, 990, r.p90_us.unwrap(), r.p99_us.unwrap(), lo, hi);
}

} // verus!
