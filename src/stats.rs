use vstd::prelude::*;
use vstd::relations::{sorted_by, total_ordering};

use crate::random::random_below;

verus! {

/// Largest number of observations that one stream accepts; the exact moments
/// of a longer stream would not fit in 128-bit arithmetic.
pub const MAX_OBSERVATIONS: u64 = 4294967295;

/// Default number of samples kept for percentiles.
pub const RESERVOIR_SIZE: usize = 10000;

/// Summary of one series of observations.
#[derive(Clone, Copy, Debug, PartialEq, Eq, Structural)]
pub struct ObservationsStats {
    pub count: usize,
    pub median: u32,
    pub min: u32,
    pub max: u32,
    pub avg: u32,
    pub quantile95: u32,
    pub stddev: u32,
}

pub open spec fn zero_stats() -> ObservationsStats {
    ObservationsStats { count: 0, median: 0, min: 0, max: 0, avg: 0, quantile95: 0, stddev: 0 }
}

impl Default for ObservationsStats {
    fn default() -> (r: Self)
        ensures
            r == zero_stats(),
    {
        ObservationsStats { count: 0, median: 0, min: 0, max: 0, avg: 0, quantile95: 0, stddev: 0 }
    }
}

// ---- the model of a series of observations ----
pub open spec fn u32_leq() -> spec_fn(u32, u32) -> bool {
    |a: u32, b: u32| a <= b
}

/// The observations in ascending order.
pub open spec fn sorted_seq(s: Seq<u32>) -> Seq<u32> {
    s.sort_by(u32_leq())
}

pub open spec fn seq_sum(s: Seq<u32>) -> int
    decreases s.len(),
{
    if s.len() == 0 {
        0
    } else {
        seq_sum(s.drop_last()) + s.last()
    }
}

pub open spec fn seq_sum_sq(s: Seq<u32>) -> int
    decreases s.len(),
{
    if s.len() == 0 {
        0
    } else {
        seq_sum_sq(s.drop_last()) + s.last() * s.last()
    }
}

/// Smallest observation (`u32::MAX` for an empty series).
pub open spec fn seq_min(s: Seq<u32>) -> u32
    decreases s.len(),
{
    if s.len() == 0 {
        u32::MAX
    } else if s.last() < seq_min(s.drop_last()) {
        s.last()
    } else {
        seq_min(s.drop_last())
    }
}

/// Largest observation (`0` for an empty series).
pub open spec fn seq_max(s: Seq<u32>) -> u32
    decreases s.len(),
{
    if s.len() == 0 {
        0
    } else if s.last() > seq_max(s.drop_last()) {
        s.last()
    } else {
        seq_max(s.drop_last())
    }
}

/// `a / b` rounded to the nearest integer, halves upwards.
pub open spec fn round_div(a: int, b: int) -> int {
    (2 * a + b) / (2 * b)
}

/// `n²` times the population variance of a series: `n·Σx² − (Σx)²`.
pub open spec fn variance_num(s: Seq<u32>) -> int {
    let n = s.len() as int;
    let d = n * seq_sum_sq(s) - seq_sum(s) * seq_sum(s);
    if d <= 0 {
        0
    } else {
        d
    }
}

/// `r` is `sqrt(num / den)` rounded to the nearest integer, halves upwards:
/// `(r − ½)² ≤ num / den < (r + ½)²`, multiplied out by `4·den`.
pub open spec fn is_round_sqrt_ratio(num: int, den: int, r: int) -> bool {
    &&& r >= 0
    &&& (r == 0 || (2 * r - 1) * (2 * r - 1) * den <= 4 * num)
    &&& 4 * num < (2 * r + 1) * (2 * r + 1) * den
}

/// Index of the 95th percentile in a sorted sample of `len` values; for
/// "higher is better" series it is taken from the other end.
pub open spec fn q95_index(len: int, inverted: bool) -> int {
    let q = (19 * len + 19) / 20;
    if !inverted {
        q - 1
    } else if len > q {
        len - q - 1
    } else {
        0
    }
}

/// Statistics of a series whose moments are known exactly and whose
/// percentiles are read from `sample`.
pub open spec fn summary_of(s: Seq<u32>, sample: Seq<u32>, inverted: bool) -> ObservationsStats {
    let sorted = sorted_seq(sample);
    ObservationsStats {
        count: s.len() as usize,
        median: sorted[sample.len() as int / 2],
        min: seq_min(s),
        max: seq_max(s),
        avg: round_div(seq_sum(s), s.len() as int) as u32,
        quantile95: sorted[q95_index(sample.len() as int, inverted)],
        stddev: choose|r: u32| #[trigger] is_round_sqrt_ratio(variance_num(s), (s.len() * s.len()) as int, r as int),
    }
}

/// Statistics of a whole series.
pub open spec fn stats_of(s: Seq<u32>, inverted: bool) -> ObservationsStats {
    if s.len() == 0 {
        zero_stats()
    } else {
        summary_of(s, s, inverted)
    }
}

/// A run without iterations records nothing: its summaries are the all-zero
/// record, whichever end the 95th percentile is taken from.
pub proof fn law_empty_run_is_zero(inverted: bool)
    ensures
        stats_of(Seq::<u32>::empty(), inverted) == zero_stats(),
        merged(Seq::<ObservationsStats>::empty()) == zero_stats(),
{
}

// ---- lemmas on the model ----
proof fn lemma_u32_total_order()
    ensures
        total_ordering(u32_leq()),
{
}

proof fn lemma_moment_bounds(s: Seq<u32>)
    ensures
        0 <= seq_sum(s) <= s.len() * (u32::MAX as int),
        0 <= seq_sum_sq(s) <= s.len() * ((u32::MAX as int) * (u32::MAX as int)),
    decreases s.len(),
{
    if s.len() > 0 {
        lemma_moment_bounds(s.drop_last());
        let x = s.last() as int;
        assert(0 <= x * x <= (u32::MAX as int) * (u32::MAX as int)) by (nonlinear_arith)
            requires
                0 <= x <= u32::MAX as int,
        ;
        assert(s.drop_last().len() * (u32::MAX as int) + u32::MAX as int == s.len() * (
        u32::MAX as int)) by (nonlinear_arith)
            requires
                s.drop_last().len() + 1 == s.len(),
        ;
        let m2 = (u32::MAX as int) * (u32::MAX as int);
        assert(s.drop_last().len() * m2 + m2 == s.len() * m2) by (nonlinear_arith)
            requires
                s.drop_last().len() + 1 == s.len(),
        ;
    }
}

proof fn lemma_min_max_bounds(s: Seq<u32>)
    requires
        s.len() > 0,
    ensures
        s.contains(seq_min(s)),
        s.contains(seq_max(s)),
        forall|i: int| 0 <= i < s.len() ==> seq_min(s) <= #[trigger] s[i] <= seq_max(s),
    decreases s.len(),
{
    if s.len() > 1 {
        lemma_min_max_bounds(s.drop_last());
        assert forall|i: int| 0 <= i < s.len() implies seq_min(s) <= #[trigger] s[i] <= seq_max(
            s,
        ) by {
            if i < s.len() - 1 {
                assert(s[i] == s.drop_last()[i]);
            }
        }
        let m = seq_min(s.drop_last());
        let k = choose|k: int| 0 <= k < s.drop_last().len() && s.drop_last()[k] == m;
        assert(s[k] == m);
        let mx = seq_max(s.drop_last());
        let k2 = choose|k: int| 0 <= k < s.drop_last().len() && s.drop_last()[k] == mx;
        assert(s[k2] == mx);
        assert(s[s.len() - 1] == s.last());
        if s.last() < m {
            assert(s[s.len() - 1] == seq_min(s));
        } else {
            assert(s[k] == seq_min(s));
        }
        if s.last() > mx {
            assert(s[s.len() - 1] == seq_max(s));
        } else {
            assert(s[k2] == seq_max(s));
        }
    } else {
        assert(s.drop_last().len() == 0);
        assert(s[0] == s.last());
        assert(seq_min(s.drop_last()) == u32::MAX);
        assert(seq_max(s.drop_last()) == 0);
        assert(s[0] == seq_min(s));
        assert(s[0] == seq_max(s));
    }
}

// ---- executable helpers ----
/// Relies on `slice::sort_unstable`: the slice ends up in ascending order and
/// holds the same values.
#[verifier::external_body]
fn sort_ascending(v: &mut Vec<u32>)
    ensures
        sorted_by(final(v)@, u32_leq()),
        final(v)@.len() == old(v)@.len(),
        final(v)@.to_multiset() == old(v)@.to_multiset(),
{
    v.sort_unstable();
}

/// Sorts a copy of `v`.
fn sorted_copy(v: &Vec<u32>) -> (r: Vec<u32>)
    ensures
        r@ == sorted_seq(v@),
        r@.len() == v@.len(),
{
    let mut r = v.clone();
    assert(r@ == v@);
    sort_ascending(&mut r);
    proof {
        lemma_u32_total_order();
        v@.lemma_sort_by_ensures(u32_leq());
        vstd::seq_lib::lemma_sorted_unique(r@, sorted_seq(v@), u32_leq());
    }
    r
}

/// The square root of `v`, rounded down.
fn floor_sqrt(v: u64) -> (r: u32)
    ensures
        r * r <= v < (r + 1) * (r + 1),
{
    // bisection: lo * lo <= v < hi * hi
    let mut lo: u64 = 0;
    let mut hi: u64 = 4294967296;
    assert(hi * hi > v) by (nonlinear_arith)
        requires
            hi == 4294967296,
            v <= u64::MAX,
    ;
    while hi - lo > 1
        invariant
            lo < hi <= 4294967296,
            lo * lo <= v,
            v < hi * hi,
        decreases hi - lo,
    {
        let mid: u64 = lo + (hi - lo) / 2;
        assert((mid as u128) * (mid as u128) <= 4294967296 * 4294967296) by (nonlinear_arith)
            requires
                mid < 4294967296,
        ;
        let sq: u128 = (mid as u128) * (mid as u128);
        if sq <= v as u128 {
            lo = mid;
        } else {
            hi = mid;
        }
    }
    assert(hi == lo + 1);
    lo as u32
}

proof fn lemma_round_up(num: int, den: int, f: int, m: int)
    requires
        den >= 1,
        f >= 0,
        m >= 0,
        f * f * den <= num < (f + 1) * (f + 1) * den,
        4 * (num - f * f * den) >= (4 * f + 1) * den,
        num <= den * (m * m),
    ensures
        is_round_sqrt_ratio(num, den, f + 1),
        f + 1 <= m,
{
    assert((2 * f + 1) * (2 * f + 1) * den <= 4 * num) by (nonlinear_arith)
        requires
            4 * (num - f * f * den) >= (4 * f + 1) * den,
    ;
    assert(4 * num < (2 * f + 3) * (2 * f + 3) * den) by (nonlinear_arith)
        requires
            num < (f + 1) * (f + 1) * den,
            den >= 1,
            f >= 0,
    ;
    assert((2 * f + 1) * (2 * f + 1) <= (2 * m) * (2 * m)) by (nonlinear_arith)
        requires
            (2 * f + 1) * (2 * f + 1) * den <= 4 * num,
            num <= den * (m * m),
            den >= 1,
    ;
    assert(2 * f + 1 <= 2 * m) by (nonlinear_arith)
        requires
            (2 * f + 1) * (2 * f + 1) <= (2 * m) * (2 * m),
            f >= 0,
            m >= 0,
    ;
}

proof fn lemma_round_down(num: int, den: int, f: int)
    requires
        den >= 1,
        f >= 0,
        f * f * den <= num,
        4 * (num - f * f * den) < (4 * f + 1) * den,
    ensures
        is_round_sqrt_ratio(num, den, f),
{
    assert(4 * num < (2 * f + 1) * (2 * f + 1) * den) by (nonlinear_arith)
        requires
            4 * (num - f * f * den) < (4 * f + 1) * den,
    ;
    if f > 0 {
        assert((2 * f - 1) * (2 * f - 1) * den <= 4 * num) by (nonlinear_arith)
            requires
                f * f * den <= num,
                f >= 1,
                den >= 1,
        ;
    }
}

proof fn lemma_round_unique(num: int, den: int, r1: int, r2: int)
    requires
        den >= 1,
        is_round_sqrt_ratio(num, den, r1),
        is_round_sqrt_ratio(num, den, r2),
    ensures
        r1 == r2,
{
    if r1 < r2 {
        assert((2 * r1 + 1) * (2 * r1 + 1) * den <= (2 * r2 - 1) * (2 * r2 - 1) * den) by (nonlinear_arith)
            requires
                0 <= r1,
                r1 + 1 <= r2,
                den >= 1,
        ;
    } else if r2 < r1 {
        assert((2 * r2 + 1) * (2 * r2 + 1) * den <= (2 * r1 - 1) * (2 * r1 - 1) * den) by (nonlinear_arith)
            requires
                0 <= r2,
                r2 + 1 <= r1,
                den >= 1,
        ;
    }
}

/// The square root of `num / den` rounded to the nearest integer, halves
/// upwards, for a quotient of at most `u32::MAX²`.
pub fn round_sqrt_ratio(num: u128, den: u128) -> (r: u32)
    requires
        1 <= den <= 18446744073709551616,
        num <= den * (4294967295 * 4294967295),
    ensures
        is_round_sqrt_ratio(num as int, den as int, r as int),
{
    let m2: u128 = 4294967295 * 4294967295;
    let v = num / den;
    proof {
        vstd::arithmetic::div_mod::lemma_fundamental_div_mod(num as int, den as int);
        vstd::arithmetic::div_mod::lemma_div_is_ordered(num as int, (den * m2) as int, den as int);
        vstd::arithmetic::div_mod::lemma_div_by_multiple(m2 as int, den as int);
        assert((den * m2) as int == m2 * den) by (nonlinear_arith);
    }
    assert(v <= m2);
    let f = floor_sqrt(v as u64);
    let ff: u128 = (f as u128) * (f as u128);
    assert(ff <= v);
    proof {
        assert(ff * den <= v * den) by (nonlinear_arith)
            requires
                ff <= v,
        ;
        assert(v * den <= num) by {
            vstd::arithmetic::div_mod::lemma_fundamental_div_mod(num as int, den as int);
            assert(v * den == den * v) by (nonlinear_arith);
        }
        assert(num < (v + 1) * den) by {
            vstd::arithmetic::div_mod::lemma_fundamental_div_mod(num as int, den as int);
            vstd::arithmetic::div_mod::lemma_mod_bound(num as int, den as int);
            assert((v + 1) * den == den * v + den) by (nonlinear_arith);
        }
        assert((v + 1) * den <= (f + 1) * (f + 1) * den) by (nonlinear_arith)
            requires
                v < (f + 1) * (f + 1),
                den >= 1,
        ;
        assert(ff * den <= m2 * 18446744073709551616) by (nonlinear_arith)
            requires
                ff <= m2,
                den <= 18446744073709551616,
        ;
    }
    let a: u128 = ff * den;
    let rem: u128 = num - a;
    proof {
        assert(rem < (2 * f + 1) * den) by (nonlinear_arith)
            requires
                rem == num - ff * den,
                ff == f * f,
                num < (f + 1) * (f + 1) * den,
        ;
        assert((2 * f + 1) * den <= 8589934591 * 18446744073709551616) by (nonlinear_arith)
            requires
                f <= 4294967295,
                den <= 18446744073709551616,
        ;
        assert((4 * f + 1) * den <= 17179869181 * 18446744073709551616) by (nonlinear_arith)
            requires
                f <= 4294967295,
                den <= 18446744073709551616,
        ;
    }
    let up: u128 = (4 * (f as u128) + 1) * den;
    if 4 * rem >= up {
        proof {
            lemma_round_up(num as int, den as int, f as int, 4294967295);
        }
        (f + 1) as u32
    } else {
        proof {
            lemma_round_down(num as int, den as int, f as int);
        }
        f
    }
}

/// Index of the 95th percentile in a sorted sample of `len >= 1` values.
pub fn quantile95_index(len: usize, inverted: bool) -> (r: usize)
    requires
        len >= 1,
        len <= u32::MAX,
    ensures
        r == q95_index(len as int, inverted),
        r < len,
{
    let q: usize = ((19 * (len as u64) + 19) / 20) as usize;
    if !inverted {
        q - 1
    } else if len > q {
        len - q - 1
    } else {
        0
    }
}

/// Builds the summary from the exact moments of a series and a sample of it.
fn summarize(
    count: u64,
    sum: u128,
    sum_sq: u128,
    min: u32,
    max: u32,
    sample: &Vec<u32>,
    inverted: bool,
    Ghost(s): Ghost<Seq<u32>>,
) -> (r: ObservationsStats)
    requires
        count == s.len(),
        1 <= count <= MAX_OBSERVATIONS,
        sum == seq_sum(s),
        sum_sq == seq_sum_sq(s),
        min == seq_min(s),
        max == seq_max(s),
        1 <= sample@.len() <= u32::MAX,
    ensures
        r == summary_of(s, sample@, inverted),
{
    proof {
        lemma_moment_bounds(s);
        lemma_min_max_bounds(s);
    }
    let sorted = sorted_copy(sample);
    let n = sample.len();
    let median = sorted[n / 2];
    let quantile95 = sorted[quantile95_index(n, inverted)];
    let c = count as u128;
    assert(sum <= c * 4294967295);
    let avg128 = (2 * sum + c) / (2 * c);
    assert(avg128 <= 4294967295) by (nonlinear_arith)
        requires
            avg128 == (2 * sum + c) / (2 * c),
            sum <= c * 4294967295,
            c >= 1,
    ;
    let avg = avg128 as u32;
    let m2: u128 = 4294967295 * 4294967295;
    assert(sum_sq <= c * m2);
    assert(c * sum_sq <= c * (c * m2)) by (nonlinear_arith)
        requires
            sum_sq <= c * m2,
            c >= 1,
    ;
    assert(c * (c * m2) < 340282366920938463463374607431768211455) by (nonlinear_arith)
        requires
            1 <= c <= 4294967295,
            m2 == 4294967295 * 4294967295,
    ;
    let ncq: u128 = c * sum_sq;
    assert(sum * sum <= c * m2 * c) by (nonlinear_arith)
        requires
            0 <= sum <= c * 4294967295,
            m2 == 4294967295 * 4294967295,
    ;
    let ss: u128 = sum * sum;
    assert(1 <= c * c <= 4294967295 * 4294967295) by (nonlinear_arith)
        requires
            1 <= c <= 4294967295,
    ;
    let cc: u128 = c * c;
    let d: u128 = if ncq > ss {
        ncq - ss
    } else {
        0
    };
    proof {
        assert(d <= cc * m2) by (nonlinear_arith)
            requires
                d <= ncq,
                ncq <= c * (c * m2),
                cc == c * c,
        ;
    }
    let stddev = round_sqrt_ratio(d, cc);
    proof {
        let n = s.len() as int;
        assert(d == variance_num(s));
        assert(cc == n * n);
        let ch = choose|r: u32| #[trigger] is_round_sqrt_ratio(variance_num(s), n * n, r as int);
        assert(is_round_sqrt_ratio(variance_num(s), n * n, stddev as int));
        lemma_round_unique(variance_num(s), n * n, ch as int, stddev as int);
    }
    ObservationsStats {
        count: count as usize,
        median,
        min,
        max,
        avg,
        quantile95,
        stddev,
    }
}

impl ObservationsStats {
    /// Summarises a whole series of observations; an empty series gives the
    /// all-zero record.  `invertedq` takes the 95th percentile from the low
    /// end, for series where higher is better.
    pub fn new(observations: Vec<u32>, invertedq: bool) -> (r: Self)
        requires
            observations@.len() <= MAX_OBSERVATIONS,
        ensures
            r == stats_of(observations@, invertedq),
    {
        let n = observations.len();
        if n == 0 {
            return ObservationsStats::default();
        }
        let mut sum: u128 = 0;
        let mut sum_sq: u128 = 0;
        let mut min: u32 = u32::MAX;
        let mut max: u32 = 0;
        let mut i: usize = 0;
        while i < n
            invariant
                n == observations@.len(),
                n <= MAX_OBSERVATIONS,
                i <= n,
                sum == seq_sum(observations@.subrange(0, i as int)),
                sum_sq == seq_sum_sq(observations@.subrange(0, i as int)),
                min == seq_min(observations@.subrange(0, i as int)),
                max == seq_max(observations@.subrange(0, i as int)),
            decreases n - i,
        {
            let x = observations[i];
            proof {
                let p = observations@.subrange(0, i as int + 1);
                assert(p.drop_last() =~= observations@.subrange(0, i as int));
                lemma_moment_bounds(p);
            }
            sum = sum + x as u128;
            sum_sq = sum_sq + (x as u128) * (x as u128);
            if x < min {
                min = x;
            }
            if x > max {
                max = x;
            }
            i = i + 1;
        }
        assert(observations@.subrange(0, n as int) =~= observations@);
        summarize(n as u64, sum, sum_sq, min, max, &observations, invertedq, Ghost(observations@))
    }
}

// ---- merging the summaries of several engines ----
/// Sum of one field over a list of summaries.
pub open spec fn field_sum(s: Seq<ObservationsStats>, f: spec_fn(ObservationsStats) -> int) -> int
    decreases s.len(),
{
    if s.len() == 0 {
        0
    } else {
        field_sum(s.drop_last(), f) + f(s.last())
    }
}

pub open spec fn min_of_mins(s: Seq<ObservationsStats>) -> u32
    decreases s.len(),
{
    if s.len() == 0 {
        u32::MAX
    } else if s.last().min < min_of_mins(s.drop_last()) {
        s.last().min
    } else {
        min_of_mins(s.drop_last())
    }
}

pub open spec fn max_of_maxes(s: Seq<ObservationsStats>) -> u32
    decreases s.len(),
{
    if s.len() == 0 {
        0
    } else if s.last().max > max_of_maxes(s.drop_last()) {
        s.last().max
    } else {
        max_of_maxes(s.drop_last())
    }
}

pub open spec fn f_count() -> spec_fn(ObservationsStats) -> int {
    |x: ObservationsStats| x.count as int
}

pub open spec fn f_median() -> spec_fn(ObservationsStats) -> int {
    |x: ObservationsStats| x.median as int
}

pub open spec fn f_min() -> spec_fn(ObservationsStats) -> int {
    |x: ObservationsStats| x.min as int
}

pub open spec fn f_max() -> spec_fn(ObservationsStats) -> int {
    |x: ObservationsStats| x.max as int
}

pub open spec fn f_avg() -> spec_fn(ObservationsStats) -> int {
    |x: ObservationsStats| x.avg as int
}

pub open spec fn f_q95() -> spec_fn(ObservationsStats) -> int {
    |x: ObservationsStats| x.quantile95 as int
}

pub open spec fn f_stddev() -> spec_fn(ObservationsStats) -> int {
    |x: ObservationsStats| x.stddev as int
}

/// Merge of latency summaries: counts add up, `min` is the smallest minimum,
/// `max` the largest maximum, the other fields are averaged (rounded down).
pub open spec fn merged(s: Seq<ObservationsStats>) -> ObservationsStats {
    let n = s.len() as int;
    if n == 0 {
        zero_stats()
    } else {
        ObservationsStats {
            count: field_sum(s, f_count()) as usize,
            median: (field_sum(s, f_median()) / n) as u32,
            min: min_of_mins(s),
            max: max_of_maxes(s),
            avg: (field_sum(s, f_avg()) / n) as u32,
            quantile95: (field_sum(s, f_q95()) / n) as u32,
            stddev: (field_sum(s, f_stddev()) / n) as u32,
        }
    }
}

/// Merge of throughput summaries: every field, `min` and `max` included, is
/// the sum over the engines.
pub open spec fn merged_rates(s: Seq<ObservationsStats>) -> ObservationsStats {
    ObservationsStats {
        count: field_sum(s, f_count()) as usize,
        median: field_sum(s, f_median()) as u32,
        min: field_sum(s, f_min()) as u32,
        max: field_sum(s, f_max()) as u32,
        avg: field_sum(s, f_avg()) as u32,
        quantile95: field_sum(s, f_q95()) as u32,
        stddev: field_sum(s, f_stddev()) as u32,
    }
}

/// Whether the summed fields of `s` fit their types.
pub open spec fn rates_fit(s: Seq<ObservationsStats>) -> bool {
    &&& field_sum(s, f_count()) <= usize::MAX
    &&& field_sum(s, f_median()) <= u32::MAX
    &&& field_sum(s, f_min()) <= u32::MAX
    &&& field_sum(s, f_max()) <= u32::MAX
    &&& field_sum(s, f_avg()) <= u32::MAX
    &&& field_sum(s, f_q95()) <= u32::MAX
    &&& field_sum(s, f_stddev()) <= u32::MAX
}

pub(crate) proof fn lemma_field_sum_nonneg_monotone(s: Seq<ObservationsStats>, f: spec_fn(ObservationsStats) -> int, i: int)
    requires
        0 <= i <= s.len(),
        forall|k: int| 0 <= k < s.len() ==> 0 <= #[trigger] f(s[k]),
    ensures
        0 <= field_sum(s.subrange(0, i), f) <= field_sum(s, f),
    decreases s.len() - i,
{
    if i < s.len() {
        lemma_field_sum_nonneg_monotone(s, f, i + 1);
        assert(s.subrange(0, i + 1).drop_last() =~= s.subrange(0, i));
        assert(f(s[i]) >= 0);
    } else {
        assert(s.subrange(0, i) =~= s);
    }
    lemma_field_sum_nonneg(s.subrange(0, i), f);
}

proof fn lemma_field_sum_nonneg(s: Seq<ObservationsStats>, f: spec_fn(ObservationsStats) -> int)
    requires
        forall|k: int| 0 <= k < s.len() ==> 0 <= #[trigger] f(s[k]),
    ensures
        0 <= field_sum(s, f),
    decreases s.len(),
{
    if s.len() > 0 {
        assert forall|k: int| 0 <= k < s.drop_last().len() implies 0 <= #[trigger] f(
            s.drop_last()[k],
        ) by {
            assert(s.drop_last()[k] == s[k]);
        }
        lemma_field_sum_nonneg(s.drop_last(), f);
        assert(f(s[s.len() - 1]) >= 0);
    }
}

proof fn lemma_mean_fits(a: int, n: int)
    requires
        0 <= a <= n * (u32::MAX as int),
        n >= 1,
    ensures
        0 <= a / n <= u32::MAX,
{
    assert(0 <= a / n <= u32::MAX) by (nonlinear_arith)
        requires
            0 <= a <= n * (u32::MAX as int),
            n >= 1,
    ;
}

impl ObservationsStats {
    /// Merges latency summaries of several engines (see [`merged`]).
    pub fn merge(stats: Vec<ObservationsStats>) -> (r: Self)
        requires
            field_sum(stats@, f_count()) <= usize::MAX,
        ensures
            r == merged(stats@),
    {
        let n = stats.len();
        if n == 0 {
            return ObservationsStats::default();
        }
        let mut count: u128 = 0;
        let mut median: u128 = 0;
        let mut avg: u128 = 0;
        let mut q95: u128 = 0;
        let mut stddev: u128 = 0;
        let mut min: u32 = u32::MAX;
        let mut max: u32 = 0;
        let mut i: usize = 0;
        while i < n
            invariant
                n == stats@.len(),
                i <= n,
                field_sum(stats@, f_count()) <= usize::MAX,
                count == field_sum(stats@.subrange(0, i as int), f_count()),
                median == field_sum(stats@.subrange(0, i as int), f_median()),
                avg == field_sum(stats@.subrange(0, i as int), f_avg()),
                q95 == field_sum(stats@.subrange(0, i as int), f_q95()),
                stddev == field_sum(stats@.subrange(0, i as int), f_stddev()),
                median <= i * (u32::MAX as int),
                avg <= i * (u32::MAX as int),
                q95 <= i * (u32::MAX as int),
                stddev <= i * (u32::MAX as int),
                min == min_of_mins(stats@.subrange(0, i as int)),
                max == max_of_maxes(stats@.subrange(0, i as int)),
            decreases n - i,
        {
            let x = stats[i];
            proof {
                let p = stats@.subrange(0, i as int + 1);
                assert(p.drop_last() =~= stats@.subrange(0, i as int));
                lemma_field_sum_nonneg_monotone(stats@, f_count(), i as int + 1);
                assert(i * (u32::MAX as int) + u32::MAX as int == (i + 1) * (u32::MAX as int))
                    by (nonlinear_arith);
                assert((i + 1) * (u32::MAX as int) <= ((u64::MAX as int) + 1) * (u32::MAX as int))
                    by (nonlinear_arith)
                    requires
                        i <= u64::MAX,
                ;
            }
            count = count + x.count as u128;
            median = median + x.median as u128;
            avg = avg + x.avg as u128;
            q95 = q95 + x.quantile95 as u128;
            stddev = stddev + x.stddev as u128;
            if x.min < min {
                min = x.min;
            }
            if x.max > max {
                max = x.max;
            }
            i = i + 1;
        }
        assert(stats@.subrange(0, n as int) =~= stats@);
        let nn = n as u128;
        proof {
            lemma_mean_fits(median as int, n as int);
            lemma_mean_fits(avg as int, n as int);
            lemma_mean_fits(q95 as int, n as int);
            lemma_mean_fits(stddev as int, n as int);
        }
        ObservationsStats {
            count: count as usize,
            median: (median / nn) as u32,
            min,
            max,
            avg: (avg / nn) as u32,
            quantile95: (q95 / nn) as u32,
            stddev: (stddev / nn) as u32,
        }
    }

    /// Merges throughput summaries of several engines (see [`merged_rates`]).
    pub fn merge_rates(stats: Vec<ObservationsStats>) -> (r: Self)
        requires
            rates_fit(stats@),
        ensures
            r == merged_rates(stats@),
    {
        let n = stats.len();
        let mut r = ObservationsStats::default();
        let mut i: usize = 0;
        while i < n
            invariant
                n == stats@.len(),
                i <= n,
                rates_fit(stats@),
                r == merged_rates(stats@.subrange(0, i as int)),
            decreases n - i,
        {
            let x = stats[i];
            proof {
                let p = stats@.subrange(0, i as int + 1);
                assert(p.drop_last() =~= stats@.subrange(0, i as int));
                lemma_field_sum_nonneg_monotone(stats@, f_count(), i as int + 1);
                lemma_field_sum_nonneg_monotone(stats@, f_median(), i as int + 1);
                lemma_field_sum_nonneg_monotone(stats@, f_min(), i as int + 1);
                lemma_field_sum_nonneg_monotone(stats@, f_max(), i as int + 1);
                lemma_field_sum_nonneg_monotone(stats@, f_avg(), i as int + 1);
                lemma_field_sum_nonneg_monotone(stats@, f_q95(), i as int + 1);
                lemma_field_sum_nonneg_monotone(stats@, f_stddev(), i as int + 1);
                lemma_field_sum_nonneg_monotone(stats@, f_count(), i as int);
                lemma_field_sum_nonneg_monotone(stats@, f_median(), i as int);
                lemma_field_sum_nonneg_monotone(stats@, f_min(), i as int);
                lemma_field_sum_nonneg_monotone(stats@, f_max(), i as int);
                lemma_field_sum_nonneg_monotone(stats@, f_avg(), i as int);
                lemma_field_sum_nonneg_monotone(stats@, f_q95(), i as int);
                lemma_field_sum_nonneg_monotone(stats@, f_stddev(), i as int);
            }
            r = ObservationsStats {
                count: r.count + x.count,
                median: r.median + x.median,
                min: r.min + x.min,
                max: r.max + x.max,
                avg: r.avg + x.avg,
                quantile95: r.quantile95 + x.quantile95,
                stddev: r.stddev + x.stddev,
            };
            i = i + 1;
        }
        assert(stats@.subrange(0, n as int) =~= stats@);
        r
    }
}

proof fn lemma_pair_sum(a: ObservationsStats, b: ObservationsStats, f: spec_fn(ObservationsStats) -> int)
    ensures
        field_sum(seq![a, b], f) == f(a) + f(b),
{
    let s2 = seq![a, b];
    let s1 = seq![a];
    let s0 = Seq::<ObservationsStats>::empty();
    assert(s2.drop_last() =~= s1);
    assert(s1.drop_last() =~= s0);
    assert(s2.last() == b);
    assert(s1.last() == a);
    assert(field_sum(s0, f) == 0);
    assert(field_sum(s1, f) == field_sum(s0, f) + f(a));
    assert(field_sum(s2, f) == field_sum(s1, f) + f(b));
}

proof fn lemma_pair(a: ObservationsStats, b: ObservationsStats)
    ensures
        field_sum(seq![a, b], f_count()) == a.count + b.count,
        field_sum(seq![a, b], f_median()) == a.median + b.median,
        field_sum(seq![a, b], f_min()) == a.min + b.min,
        field_sum(seq![a, b], f_max()) == a.max + b.max,
        field_sum(seq![a, b], f_avg()) == a.avg + b.avg,
        field_sum(seq![a, b], f_q95()) == a.quantile95 + b.quantile95,
        field_sum(seq![a, b], f_stddev()) == a.stddev + b.stddev,
        min_of_mins(seq![a, b]) == if b.min < a.min {
            b.min
        } else {
            a.min
        },
        max_of_maxes(seq![a, b]) == if b.max > a.max {
            b.max
        } else {
            a.max
        },
{
    lemma_pair_sum(a, b, f_count());
    lemma_pair_sum(a, b, f_median());
    lemma_pair_sum(a, b, f_min());
    lemma_pair_sum(a, b, f_max());
    lemma_pair_sum(a, b, f_avg());
    lemma_pair_sum(a, b, f_q95());
    lemma_pair_sum(a, b, f_stddev());
    let s2 = seq![a, b];
    let s1 = seq![a];
    let s0 = Seq::<ObservationsStats>::empty();
    assert(s2.drop_last() =~= s1);
    assert(s1.drop_last() =~= s0);
    assert(s2.last() == b);
    assert(s1.last() == a);
    assert(min_of_mins(s0) == u32::MAX);
    assert(max_of_maxes(s0) == 0);
    assert(min_of_mins(s1) == a.min);
    assert(max_of_maxes(s1) == a.max);
}

/// Merging two latency summaries gives the same record in either order.
pub proof fn law_merge_commutative(a: ObservationsStats, b: ObservationsStats)
    ensures
        merged(seq![a, b]) == merged(seq![b, a]),
{
    lemma_pair(a, b);
    lemma_pair(b, a);
}

/// The count, the minimum and the maximum of a latency merge do not depend on
/// how the summaries are grouped.
pub proof fn law_merge_associative(a: ObservationsStats, b: ObservationsStats, c: ObservationsStats)
    requires
        a.count + b.count + c.count <= usize::MAX,
    ensures
        merged(seq![merged(seq![a, b]), c]).count == merged(seq![a, merged(seq![b, c])]).count,
        merged(seq![merged(seq![a, b]), c]).min == merged(seq![a, merged(seq![b, c])]).min,
        merged(seq![merged(seq![a, b]), c]).max == merged(seq![a, merged(seq![b, c])]).max,
{
    let ab = merged(seq![a, b]);
    let bc = merged(seq![b, c]);
    lemma_pair(a, b);
    lemma_pair(b, c);
    lemma_pair(ab, c);
    lemma_pair(a, bc);
    assert(field_sum(seq![a, b], f_count()) == a.count + b.count);
    assert(field_sum(seq![b, c], f_count()) == b.count + c.count);
    assert(field_sum(seq![ab, c], f_count()) == ab.count + c.count);
    assert(field_sum(seq![a, bc], f_count()) == a.count + bc.count);
}

/// Merging two throughput summaries gives the same record in either order, and
/// grouping three of them does not change the result.
pub proof fn law_merge_rates_commutative_associative(
    a: ObservationsStats,
    b: ObservationsStats,
    c: ObservationsStats,
)
    requires
        rates_fit(seq![a, b, c]),
    ensures
        merged_rates(seq![a, b]) == merged_rates(seq![b, a]),
        merged_rates(seq![merged_rates(seq![a, b]), c]) == merged_rates(
            seq![a, merged_rates(seq![b, c])],
        ),
{
    let s = seq![a, b, c];
    assert(s.drop_last() =~= seq![a, b]);
    assert(s.last() == c);
    lemma_pair(a, b);
    lemma_pair(b, a);
    lemma_pair(b, c);
    let ab = merged_rates(seq![a, b]);
    let bc = merged_rates(seq![b, c]);
    lemma_pair(ab, c);
    lemma_pair(a, bc);
    assert(field_sum(s, f_count()) == a.count + b.count + c.count);
    assert(field_sum(s, f_median()) == a.median + b.median + c.median);
    assert(field_sum(s, f_min()) == a.min + b.min + c.min);
    assert(field_sum(s, f_max()) == a.max + b.max + c.max);
    assert(field_sum(s, f_avg()) == a.avg + b.avg + c.avg);
    assert(field_sum(s, f_q95()) == a.quantile95 + b.quantile95 + c.quantile95);
    assert(field_sum(s, f_stddev()) == a.stddev + b.stddev + c.stddev);
}

// ---- streaming statistics ----
/// Online statistics of one stream: exact count, sum, sum of squares, minimum
/// and maximum, and a uniform reservoir sample (algorithm R) for percentiles.
pub struct StreamingStats {
    count: u64,
    sum: u128,
    sum_sq: u128,
    min: u32,
    max: u32,
    reservoir: Vec<u32>,
    capacity: usize,
    seen: Ghost<Seq<u32>>,
}

impl View for StreamingStats {
    type V = Seq<u32>;

    /// Every observation recorded so far, in order.
    closed spec fn view(&self) -> Seq<u32> {
        self.seen@
    }
}

impl StreamingStats {
    /// The observations currently held in the reservoir.
    pub closed spec fn sample(&self) -> Seq<u32> {
        self.reservoir@
    }

    pub closed spec fn spec_capacity(&self) -> nat {
        self.capacity as nat
    }

    pub closed spec fn wf(&self) -> bool {
        &&& self.count == self.seen@.len()
        &&& self.count <= MAX_OBSERVATIONS
        &&& self.sum == seq_sum(self.seen@)
        &&& self.sum_sq == seq_sum_sq(self.seen@)
        &&& self.min == seq_min(self.seen@)
        &&& self.max == seq_max(self.seen@)
        &&& self.capacity >= 1
        &&& self.capacity <= u32::MAX
        &&& self.reservoir@.len() == if self.count < self.capacity {
            self.count as int
        } else {
            self.capacity as int
        }
        &&& forall|i: int|
            0 <= i < self.reservoir@.len() ==> self.seen@.contains(#[trigger] self.reservoir@[i])
    }

    /// The reservoir never holds more than its capacity.
    pub proof fn lemma_sample_bounded(&self)
        requires
            self.wf(),
        ensures
            self.sample().len() <= self.spec_capacity(),
    {
    }

    /// An empty stream whose reservoir keeps `capacity` samples.
    pub fn new(capacity: usize) -> (r: Self)
        requires
            1 <= capacity <= u32::MAX,
        ensures
            r.wf(),
            r@ == Seq::<u32>::empty(),
            r.sample() == Seq::<u32>::empty(),
            r.spec_capacity() == capacity,
    {
        StreamingStats {
            count: 0,
            sum: 0,
            sum_sq: 0,
            min: u32::MAX,
            max: 0,
            reservoir: Vec::new(),
            capacity,
            seen: Ghost(Seq::empty()),
        }
    }

    /// Number of observations recorded.
    pub fn count(&self) -> (r: u64)
        requires
            self.wf(),
        ensures
            r == self@.len(),
    {
        self.count
    }

    /// Records `x`; `slot` is a draw from `0..=count`, the position that
    /// algorithm R replaces when the reservoir is full (no slot in the
    /// reservoir: the sample is unchanged).  A stream that already holds
    /// `MAX_OBSERVATIONS` observations ignores further ones.
    pub fn record_at(&mut self, x: u32, slot: u64)
        requires
            old(self).wf(),
            slot <= old(self)@.len(),
        ensures
            final(self).wf(),
            final(self).spec_capacity() == old(self).spec_capacity(),
            old(self)@.len() < MAX_OBSERVATIONS ==> final(self)@ == old(self)@.push(x),
            old(self)@.len() >= MAX_OBSERVATIONS ==> final(self)@ == old(self)@,
            old(self)@.len() < MAX_OBSERVATIONS ==> final(self).sample() == if old(self).sample().len()
                < old(self).spec_capacity() {
                old(self).sample().push(x)
            } else if slot < old(self).spec_capacity() {
                old(self).sample().update(slot as int, x)
            } else {
                old(self).sample()
            },
            old(self)@.len() >= MAX_OBSERVATIONS ==> final(self).sample() == old(self).sample(),
    {
        if self.count >= MAX_OBSERVATIONS {
            return;
        }
        let ghost old_seen = self.seen@;
        let ghost new_seen = old_seen.push(x);
        proof {
            assert(new_seen.drop_last() =~= old_seen);
            lemma_moment_bounds(new_seen);
        }
        self.count = self.count + 1;
        self.sum = self.sum + x as u128;
        self.sum_sq = self.sum_sq + (x as u128) * (x as u128);
        if x < self.min {
            self.min = x;
        }
        if x > self.max {
            self.max = x;
        }
        self.seen = Ghost(new_seen);
        if self.reservoir.len() < self.capacity {
            self.reservoir.push(x);
        } else if slot < self.capacity as u64 {
            self.reservoir.set(slot as usize, x);
        }
        proof {
            assert forall|i: int| 0 <= i < self.reservoir@.len() implies new_seen.contains(
                #[trigger] self.reservoir@[i],
            ) by {
                if self.reservoir@[i] == x {
                    assert(new_seen[new_seen.len() - 1] == x);
                } else {
                    let y = self.reservoir@[i];
                    assert(old_seen.contains(y));
                    let k = choose|k: int| 0 <= k < old_seen.len() && old_seen[k] == y;
                    assert(new_seen[k] == y);
                }
            }
        }
    }

    /// Records `x`, drawing the replacement slot at random.
    pub fn record(&mut self, x: u32)
        requires
            old(self).wf(),
        ensures
            final(self).wf(),
            final(self).spec_capacity() == old(self).spec_capacity(),
            old(self)@.len() < MAX_OBSERVATIONS ==> final(self)@ == old(self)@.push(x),
            old(self)@.len() >= MAX_OBSERVATIONS ==> final(self)@ == old(self)@,
            old(self).sample().len() < old(self).spec_capacity() && old(self)@.len()
                < MAX_OBSERVATIONS ==> final(self).sample() == old(self).sample().push(x),
            old(self).sample().len() >= old(self).spec_capacity() ==> final(self).sample()
                == old(self).sample() || exists|j: int|
                0 <= j < old(self).spec_capacity() && final(self).sample() == old(
                    self,
                ).sample().update(j, x),
    {
        if self.count >= MAX_OBSERVATIONS {
            return;
        }
        let slot = random_below(self.count + 1);
        self.record_at(x, slot);
    }

    /// The summary of the stream: count, minimum, maximum, rounded mean and
    /// rounded standard deviation are exact; median and 95th percentile are
    /// read from the reservoir.  An empty stream gives the all-zero record.
    pub fn finalize(&self, inverted_quantile: bool) -> (r: ObservationsStats)
        requires
            self.wf(),
        ensures
            self@.len() == 0 ==> r == zero_stats(),
            self@.len() > 0 ==> r == summary_of(self@, self.sample(), inverted_quantile),
    {
        if self.count == 0 {
            return ObservationsStats::default();
        }
        summarize(
            self.count,
            self.sum,
            self.sum_sq,
            self.min,
            self.max,
            &self.reservoir,
            inverted_quantile,
            Ghost(self.seen@),
        )
    }
}

proof fn lemma_sum_remove(s: Seq<ObservationsStats>, f: spec_fn(ObservationsStats) -> int, j: int)
    requires
        0 <= j < s.len(),
    ensures
        field_sum(s, f) == field_sum(s.remove(j), f) + f(s[j]),
    decreases s.len(),
{
    if j == s.len() - 1 {
        assert(s.remove(j) =~= s.drop_last());
    } else {
        lemma_sum_remove(s.drop_last(), f, j);
        assert(s.remove(j).drop_last() =~= s.drop_last().remove(j));
        assert(s.remove(j).last() == s.last());
        assert(s.drop_last()[j] == s[j]);
    }
}

proof fn lemma_min_remove(s: Seq<ObservationsStats>, j: int)
    requires
        0 <= j < s.len(),
    ensures
        min_of_mins(s) == if s[j].min < min_of_mins(s.remove(j)) {
            s[j].min
        } else {
            min_of_mins(s.remove(j))
        },
        max_of_maxes(s) == if s[j].max > max_of_maxes(s.remove(j)) {
            s[j].max
        } else {
            max_of_maxes(s.remove(j))
        },
    decreases s.len(),
{
    if j == s.len() - 1 {
        assert(s.remove(j) =~= s.drop_last());
    } else {
        lemma_min_remove(s.drop_last(), j);
        assert(s.remove(j).drop_last() =~= s.drop_last().remove(j));
        assert(s.remove(j).last() == s.last());
        assert(s.drop_last()[j] == s[j]);
    }
}

proof fn lemma_reorder(s1: Seq<ObservationsStats>, s2: Seq<ObservationsStats>)
    requires
        s1.to_multiset() == s2.to_multiset(),
    ensures
        s1.len() == s2.len(),
        min_of_mins(s1) == min_of_mins(s2),
        max_of_maxes(s1) == max_of_maxes(s2),
        forall|f: spec_fn(ObservationsStats) -> int| #[trigger] field_sum(s1, f) == field_sum(s2, f),
    decreases s1.len(),
{
    broadcast use vstd::seq_lib::group_to_multiset_ensures;
    vstd::seq_lib::lemma_multiset_commutative(s1.drop_last(), seq![s1.last()]);

    if s1.len() == 0 {
        assert(s2.to_multiset().len() == 0);
        assert(s2.len() == 0);
        assert(s2 =~= s1);
    } else {
        let x = s1.last();
        assert(s1 =~= s1.drop_last().push(x));
        assert(s1.to_multiset().count(x) > 0);
        assert(s2.to_multiset().count(x) > 0);
        assert(s2.contains(x));
        let j = choose|j: int| 0 <= j < s2.len() && s2[j] == x;
        let rest = s2.remove(j);
        assert(s2.to_multiset() =~= rest.to_multiset().insert(x)) by {
            assert(s2 =~= s2.subrange(0, j) + seq![x] + s2.subrange(j + 1, s2.len() as int));
            assert(rest =~= s2.subrange(0, j) + s2.subrange(j + 1, s2.len() as int));
            vstd::seq_lib::lemma_multiset_commutative(s2.subrange(0, j) + seq![x], s2.subrange(j + 1, s2.len() as int));
            vstd::seq_lib::lemma_multiset_commutative(s2.subrange(0, j), seq![x]);
            vstd::seq_lib::lemma_multiset_commutative(s2.subrange(0, j), s2.subrange(j + 1, s2.len() as int));
        }
        assert(s1.to_multiset() =~= s1.drop_last().to_multiset().insert(x));
        assert(s1.drop_last().to_multiset() =~= rest.to_multiset());
        lemma_reorder(s1.drop_last(), rest);
        lemma_min_remove(s2, j);
        assert forall|f: spec_fn(ObservationsStats) -> int| #[trigger] field_sum(s1, f) == field_sum(s2, f) by {
            lemma_sum_remove(s2, f, j);
            assert(field_sum(s1.drop_last(), f) == field_sum(rest, f));
        }
    }
}

/// A latency merge does not depend on the order of the summaries: any two
/// lists holding the same summaries merge to the same record.
pub proof fn law_merge_order_independent(s1: Seq<ObservationsStats>, s2: Seq<ObservationsStats>)
    requires
        s1.to_multiset() == s2.to_multiset(),
    ensures
        merged(s1) == merged(s2),
        merged_rates(s1) == merged_rates(s2),
{
    lemma_reorder(s1, s2);
    assert(field_sum(s1, f_count()) == field_sum(s2, f_count()));
    assert(field_sum(s1, f_median()) == field_sum(s2, f_median()));
    assert(field_sum(s1, f_min()) == field_sum(s2, f_min()));
    assert(field_sum(s1, f_max()) == field_sum(s2, f_max()));
    assert(field_sum(s1, f_avg()) == field_sum(s2, f_avg()));
    assert(field_sum(s1, f_q95()) == field_sum(s2, f_q95()));
    assert(field_sum(s1, f_stddev()) == field_sum(s2, f_stddev()));
}

proof fn lemma_concat(a: Seq<ObservationsStats>, b: Seq<ObservationsStats>, f: spec_fn(ObservationsStats) -> int)
    ensures
        field_sum(a + b, f) == field_sum(a, f) + field_sum(b, f),
        min_of_mins(a + b) == if min_of_mins(b) < min_of_mins(a) {
            min_of_mins(b)
        } else {
            min_of_mins(a)
        },
        max_of_maxes(a + b) == if max_of_maxes(b) > max_of_maxes(a) {
            max_of_maxes(b)
        } else {
            max_of_maxes(a)
        },
    decreases b.len(),
{
    if b.len() == 0 {
        assert(a + b =~= a);
    } else {
        lemma_concat(a, b.drop_last(), f);
        assert((a + b).drop_last() =~= a + b.drop_last());
        assert((a + b).last() == b.last());
    }
}

/// Merging the merges of two groups gives the count, minimum and maximum of
/// merging all their summaries at once: grouping does not matter.
pub proof fn law_merge_grouping(a: Seq<ObservationsStats>, b: Seq<ObservationsStats>)
    requires
        a.len() > 0,
        b.len() > 0,
        field_sum(a + b, f_count()) <= usize::MAX,
    ensures
        merged(seq![merged(a), merged(b)]).count == merged(a + b).count,
        merged(seq![merged(a), merged(b)]).min == merged(a + b).min,
        merged(seq![merged(a), merged(b)]).max == merged(a + b).max,
{
    lemma_concat(a, b, f_count());
    lemma_field_sum_nonneg(a, f_count());
    lemma_field_sum_nonneg(b, f_count());
    lemma_pair(merged(a), merged(b));
}

} // verus!
