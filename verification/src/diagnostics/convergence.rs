use vstd::prelude::*;

use crate::diagnostics::bins::BinData;

verus! {

/// Sum of the neutron counts of the first `n` bins.
pub open spec fn neutron_prefix(bins: Seq<BinData>, n: int) -> int
    decreases n,
{
    if n <= 0 {
        0
    } else {
        neutron_prefix(bins, n - 1) + bins[n - 1].neutron_count
    }
}

/// Sum of the neutron counts of all bins.
pub open spec fn neutron_total(bins: Seq<BinData>) -> int {
    neutron_prefix(bins, bins.len() as int)
}

/// Every running total met while summing the neutron counts in order fits
/// in an `i64`, so that the sum can be taken in `i64` without overflow.
pub open spec fn neutron_sum_fits(bins: Seq<BinData>) -> bool {
    forall|k: int|
        0 <= k <= bins.len() ==> i64::MIN <= #[trigger] neutron_prefix(bins, k) <= i64::MAX
}

/// The neutron total of a distribution, raised to 1 when it is smaller, so that
/// it can divide.
pub open spec fn clamped_total(bins: Seq<BinData>) -> int {
    let t = neutron_total(bins);
    if t >= 1 {
        t
    } else {
        1
    }
}

pub open spec fn abs(x: int) -> int {
    if x < 0 {
        -x
    } else {
        x
    }
}

/// Number of bins that two distributions have in common (the shorter length).
pub open spec fn paired_len(cur: Seq<BinData>, prev: Seq<BinData>) -> int {
    if cur.len() <= prev.len() {
        cur.len() as int
    } else {
        prev.len() as int
    }
}

/// `sum_{i < n} |cur[i] * prev_total - prev[i] * cur_total|`: the distance
/// between the two normalised distributions over their first `n` bins,
/// multiplied by `cur_total * prev_total`.
pub open spec fn divergence_sum(
    cur: Seq<BinData>,
    prev: Seq<BinData>,
    cur_total: int,
    prev_total: int,
    n: int,
) -> int
    decreases n,
{
    if n <= 0 {
        0
    } else {
        divergence_sum(cur, prev, cur_total, prev_total, n - 1) + abs(
            cur[n - 1].neutron_count * prev_total - prev[n - 1].neutron_count * cur_total,
        )
    }
}

/// Numerator of the convergence measure
/// `sum_i |cur[i] / C - prev[i] / P|`, with `C` and `P` the clamped totals,
/// once the fractions are brought to the common denominator `C * P`.
pub open spec fn convergence_numerator(cur: Seq<BinData>, prev: Seq<BinData>) -> int {
    divergence_sum(cur, prev, clamped_total(cur), clamped_total(prev), paired_len(cur, prev))
}

/// Denominator `C * P` of the convergence measure.
pub open spec fn convergence_denominator(cur: Seq<BinData>, prev: Seq<BinData>) -> int {
    clamped_total(cur) * clamped_total(prev)
}

/// `2^128`, the weight of the high word of a numerator.
pub open spec fn word() -> int {
    u128::MAX as int + 1
}

/// The convergence measure between two generations, held exactly as the
/// fraction `(numerator_hi * 2^128 + numerator_lo) / denominator`.
#[derive(Clone, Copy, Debug, PartialEq, Eq, Structural)]
pub struct ConvergenceRatio {
    pub numerator_hi: u128,
    pub numerator_lo: u128,
    pub denominator: u128,
}

impl ConvergenceRatio {
    /// The numerator that the two words make up.
    pub open spec fn numerator(self) -> int {
        self.numerator_hi * word() + self.numerator_lo
    }
}

/// The convergence measure between the distribution `cur` and the one before it.
pub open spec fn convergence_ratio(cur: Seq<BinData>, prev: Seq<BinData>) -> ConvergenceRatio {
    ConvergenceRatio {
        numerator_hi: (convergence_numerator(cur, prev) / word()) as u128,
        numerator_lo: (convergence_numerator(cur, prev) % word()) as u128,
        denominator: convergence_denominator(cur, prev) as u128,
    }
}

pub proof fn lemma_divergence_sum_monotone(
    cur: Seq<BinData>,
    prev: Seq<BinData>,
    ct: int,
    pt: int,
    i: int,
    j: int,
)
    requires
        i <= j,
    ensures
        divergence_sum(cur, prev, ct, pt, i) <= divergence_sum(cur, prev, ct, pt, j),
    decreases j - i,
{
    if i < j {
        lemma_divergence_sum_monotone(cur, prev, ct, pt, i, j - 1);
    }
}

/// Sum of the neutron counts of `bins`, as the simulation takes it.
pub fn total_neutron_count(bins: &Vec<BinData>) -> (total: i64)
    requires
        neutron_sum_fits(bins@),
    ensures
        total == neutron_total(bins@),
{
    let mut total: i64 = 0;
    let mut i: usize = 0;
    while i < bins.len()
        invariant
            i <= bins.len(),
            neutron_sum_fits(bins@),
            total == neutron_prefix(bins@, i as int),
        decreases bins.len() - i,
    {
        assert(i64::MIN <= neutron_prefix(bins@, i + 1) <= i64::MAX);
        total = total + bins[i].neutron_count;
        i = i + 1;
    }
    total
}

/// `max(total, 1)`, the clamped neutron total of `bins`.
fn clamped_neutron_count(bins: &Vec<BinData>) -> (total: i64)
    requires
        neutron_sum_fits(bins@),
    ensures
        total == clamped_total(bins@),
        1 <= total,
{
    let t = total_neutron_count(bins);
    if t >= 1 {
        t
    } else {
        1
    }
}

/// `|count * other_total - other_count * total|` for one pair of bins.
fn divergence_term(count: i64, other_total: i64, other_count: i64, total: i64) -> (term: u128)
    requires
        1 <= other_total,
        1 <= total,
    ensures
        term == abs(count * other_total - other_count * total),
        term < 0x8000_0000_0000_0000_0000_0000_0000_0000,
{
    let a: i128 = count as i128;
    let b: i128 = other_total as i128;
    let c: i128 = other_count as i128;
    let d: i128 = total as i128;
    assert(-0x4000_0000_0000_0000_0000_0000_0000_0000 < a * b < 0x4000_0000_0000_0000_0000_0000_0000_0000)
        by (nonlinear_arith)
        requires
            -0x8000_0000_0000_0000 <= a < 0x8000_0000_0000_0000,
            1 <= b < 0x8000_0000_0000_0000,
    ;
    assert(-0x4000_0000_0000_0000_0000_0000_0000_0000 < c * d < 0x4000_0000_0000_0000_0000_0000_0000_0000)
        by (nonlinear_arith)
        requires
            -0x8000_0000_0000_0000 <= c < 0x8000_0000_0000_0000,
            1 <= d < 0x8000_0000_0000_0000,
    ;
    let diff: i128 = a * b - c * d;
    if diff < 0 {
        (-diff) as u128
    } else {
        diff as u128
    }
}

/// The convergence measure between the bin distribution `cur` of this
/// generation and `prev` of the one before: the sum over the bins they share
/// of `|cur[i] / C - prev[i] / P|`, where `C` and `P` are the neutron totals of
/// the two distributions raised to at least 1. It is returned exactly, as the
/// fraction with denominator `C * P`.
pub fn convergence_between(cur: &Vec<BinData>, prev: &Vec<BinData>) -> (r: ConvergenceRatio)
    requires
        neutron_sum_fits(cur@),
        neutron_sum_fits(prev@),
    ensures
        r == convergence_ratio(cur@, prev@),
        r.numerator() == convergence_numerator(cur@, prev@),
        r.denominator == convergence_denominator(cur@, prev@),
{
    let ct = clamped_neutron_count(cur);
    let pt = clamped_neutron_count(prev);
    let n: usize = if cur.len() <= prev.len() {
        cur.len()
    } else {
        prev.len()
    };
    let mut hi: u128 = 0;
    let mut lo: u128 = 0;
    let mut i: usize = 0;
    while i < n
        invariant
            i <= n,
            n == paired_len(cur@, prev@),
            n <= cur.len(),
            n <= prev.len(),
            1 <= ct,
            1 <= pt,
            ct == clamped_total(cur@),
            pt == clamped_total(prev@),
            hi <= i,
            hi * word() + lo == divergence_sum(cur@, prev@, ct as int, pt as int, i as int),
        decreases n - i,
    {
        let term = divergence_term(cur[i].neutron_count, pt, prev[i].neutron_count, ct);
        let room: u128 = u128::MAX - lo;
        if term <= room {
            lo = lo + term;
        } else {
            let ghost w = word();
            let ghost before = hi as int;
            lo = term - room - 1;
            hi = hi + 1;
            assert(hi as int * w == before * w + w) by (nonlinear_arith)
                requires
                    hi as int == before + 1,
            ;
        }
        i = i + 1;
    }
    let a: u128 = ct as u128;
    let b: u128 = pt as u128;
    assert(a * b < 0x4000_0000_0000_0000_0000_0000_0000_0000) by (nonlinear_arith)
        requires
            1 <= a < 0x8000_0000_0000_0000,
            1 <= b < 0x8000_0000_0000_0000,
    ;
    proof {
        vstd::arithmetic::div_mod::lemma_fundamental_div_mod_converse(
            convergence_numerator(cur@, prev@),
            word(),
            hi as int,
            lo as int,
        );
    }
    ConvergenceRatio { numerator_hi: hi, numerator_lo: lo, denominator: a * b }
}

/// The sum of the neutron counts of `bins`, or `None` where a running total
/// leaves `i64`.
pub fn checked_total_neutron_count(bins: &Vec<BinData>) -> (total: Option<i64>)
    ensures
        total is Some <==> neutron_sum_fits(bins@),
        total matches Some(t) ==> t == neutron_total(bins@),
{
    let mut total: i64 = 0;
    let mut i: usize = 0;
    while i < bins.len()
        invariant
            i <= bins.len(),
            total == neutron_prefix(bins@, i as int),
            forall|k: int| 0 <= k <= i ==> i64::MIN <= #[trigger] neutron_prefix(bins@, k) <= i64::MAX,
        decreases bins.len() - i,
    {
        match total.checked_add(bins[i].neutron_count) {
            Some(t) => {
                total = t;
            },
            None => {
                assert(!(i64::MIN <= neutron_prefix(bins@, i + 1) <= i64::MAX));
                return None;
            },
        }
        i = i + 1;
    }
    Some(total)
}

/// The convergence measure between `cur` and `prev`, as `convergence_between`
/// gives it, or `None` where a running neutron total of either leaves `i64`.
pub fn checked_convergence_between(cur: &Vec<BinData>, prev: &Vec<BinData>) -> (r: Option<ConvergenceRatio>)
    ensures
        r is Some <==> neutron_sum_fits(cur@) && neutron_sum_fits(prev@),
        r matches Some(c) ==> c == convergence_ratio(cur@, prev@),
{
    if checked_total_neutron_count(cur).is_none() || checked_total_neutron_count(prev).is_none() {
        return None;
    }
    Some(convergence_between(cur, prev))
}

/// Every bin of `bins` holds a neutron count of at least zero.
pub open spec fn counts_nonnegative(bins: Seq<BinData>) -> bool {
    forall|i: int| 0 <= i < bins.len() ==> 0 <= #[trigger] bins[i].neutron_count
}

proof fn lemma_divergence_sum_of_same(bins: Seq<BinData>, t: int, n: int)
    ensures
        divergence_sum(bins, bins, t, t, n) == 0,
    decreases n,
{
    if n > 0 {
        lemma_divergence_sum_of_same(bins, t, n - 1);
    }
}

/// A generation whose bin distribution equals that of the generation before
/// it has converged: its convergence measure is zero.
pub proof fn lemma_unchanged_distribution_has_zero_convergence(bins: Seq<BinData>)
    ensures
        convergence_numerator(bins, bins) == 0,
        convergence_ratio(bins, bins).numerator() == 0,
{
    lemma_divergence_sum_of_same(bins, clamped_total(bins), paired_len(bins, bins));
    vstd::arithmetic::div_mod::lemma_fundamental_div_mod_converse(0, word(), 0, 0);
}

proof fn lemma_neutron_prefix_monotone(bins: Seq<BinData>, i: int, j: int)
    requires
        counts_nonnegative(bins),
        0 <= i <= j <= bins.len(),
    ensures
        0 <= neutron_prefix(bins, i) <= neutron_prefix(bins, j),
    decreases j - i,
{
    if i < j {
        lemma_neutron_prefix_monotone(bins, i, j - 1);
        assert(0 <= bins[j - 1].neutron_count);
    } else {
        lemma_neutron_prefix_nonnegative(bins, i);
    }
}

proof fn lemma_neutron_prefix_nonnegative(bins: Seq<BinData>, n: int)
    requires
        counts_nonnegative(bins),
        n <= bins.len(),
    ensures
        0 <= neutron_prefix(bins, n),
    decreases n,
{
    if n > 0 {
        lemma_neutron_prefix_nonnegative(bins, n - 1);
        assert(0 <= bins[n - 1].neutron_count);
    }
}

proof fn lemma_divergence_sum_bound(
    cur: Seq<BinData>,
    prev: Seq<BinData>,
    ct: int,
    pt: int,
    n: int,
)
    requires
        counts_nonnegative(cur),
        counts_nonnegative(prev),
        0 <= ct,
        0 <= pt,
        0 <= n <= cur.len(),
        n <= prev.len(),
    ensures
        divergence_sum(cur, prev, ct, pt, n) <= neutron_prefix(cur, n) * pt + neutron_prefix(
            prev,
            n,
        ) * ct,
    decreases n,
{
    if n > 0 {
        lemma_divergence_sum_bound(cur, prev, ct, pt, n - 1);
        let c = cur[n - 1].neutron_count as int;
        let p = prev[n - 1].neutron_count as int;
        let sc = neutron_prefix(cur, n - 1);
        let sp = neutron_prefix(prev, n - 1);
        assert(0 <= c);
        assert(0 <= p);
        assert(abs(c * pt - p * ct) <= c * pt + p * ct) by (nonlinear_arith)
            requires
                0 <= c,
                0 <= p,
                0 <= ct,
                0 <= pt,
        ;
        assert((sc + c) * pt == sc * pt + c * pt) by (nonlinear_arith);
        assert((sp + p) * ct == sp * ct + p * ct) by (nonlinear_arith);
    }
}

/// With counts that are not negative, the convergence measure lies between 0
/// and 2: the numerator is at most twice the denominator.
pub proof fn lemma_convergence_at_most_two(cur: Seq<BinData>, prev: Seq<BinData>)
    requires
        counts_nonnegative(cur),
        counts_nonnegative(prev),
    ensures
        0 <= convergence_numerator(cur, prev) <= 2 * convergence_denominator(cur, prev),
{
    let ct = clamped_total(cur);
    let pt = clamped_total(prev);
    let m = paired_len(cur, prev);
    lemma_divergence_sum_bound(cur, prev, ct, pt, m);
    lemma_divergence_sum_monotone(cur, prev, ct, pt, 0, m);
    lemma_neutron_prefix_monotone(cur, m, cur.len() as int);
    lemma_neutron_prefix_monotone(prev, m, prev.len() as int);
    let sc = neutron_prefix(cur, m);
    let sp = neutron_prefix(prev, m);
    assert(sc <= ct);
    assert(sp <= pt);
    assert(sc * pt + sp * ct <= 2 * (ct * pt)) by (nonlinear_arith)
        requires
            0 <= sc <= ct,
            0 <= sp <= pt,
    ;
}

proof fn lemma_scaled_prefix(a: Seq<BinData>, b: Seq<BinData>, k: int, n: int)
    requires
        a.len() == b.len(),
        0 <= n <= a.len(),
        forall|i: int| 0 <= i < a.len() ==> #[trigger] b[i].neutron_count == k * a[i].neutron_count,
    ensures
        neutron_prefix(b, n) == k * neutron_prefix(a, n),
    decreases n,
{
    if n > 0 {
        lemma_scaled_prefix(a, b, k, n - 1);
        let s = neutron_prefix(a, n - 1);
        let c = a[n - 1].neutron_count as int;
        assert(b[n - 1].neutron_count == k * c);
        assert(k * s + k * c == k * (s + c)) by (nonlinear_arith);
    }
}

proof fn lemma_scaled_divergence(
    a: Seq<BinData>,
    b: Seq<BinData>,
    prev: Seq<BinData>,
    k: int,
    ct: int,
    pt: int,
    n: int,
)
    requires
        a.len() == b.len(),
        0 <= n <= a.len(),
        n <= prev.len(),
        1 <= k,
        forall|i: int| 0 <= i < a.len() ==> #[trigger] b[i].neutron_count == k * a[i].neutron_count,
    ensures
        divergence_sum(b, prev, k * ct, pt, n) == k * divergence_sum(a, prev, ct, pt, n),
    decreases n,
{
    if n > 0 {
        lemma_scaled_divergence(a, b, prev, k, ct, pt, n - 1);
        let c = a[n - 1].neutron_count as int;
        let p = prev[n - 1].neutron_count as int;
        let s = divergence_sum(a, prev, ct, pt, n - 1);
        assert(b[n - 1].neutron_count == k * c);
        let x = c * pt - p * ct;
        assert((k * c) * pt - p * (k * ct) == k * x) by (nonlinear_arith)
            requires
                x == c * pt - p * ct,
        ;
        assert(abs(k * x) == k * abs(x)) by (nonlinear_arith)
            requires
                1 <= k,
        ;
        assert(k * s + k * abs(x) == k * (s + abs(x))) by (nonlinear_arith);
    }
}

proof fn lemma_zero_total_counts_are_zero(bins: Seq<BinData>, i: int)
    requires
        counts_nonnegative(bins),
        neutron_total(bins) <= 0,
        0 <= i < bins.len(),
    ensures
        bins[i].neutron_count == 0,
{
    lemma_neutron_prefix_nonnegative(bins, i);
    lemma_neutron_prefix_monotone(bins, i + 1, bins.len() as int);
}

proof fn lemma_divergence_sum_same_counts(
    a: Seq<BinData>,
    b: Seq<BinData>,
    prev: Seq<BinData>,
    ct: int,
    pt: int,
    n: int,
)
    requires
        a.len() == b.len(),
        n <= a.len(),
        forall|i: int| 0 <= i < a.len() ==> #[trigger] b[i].neutron_count == a[i].neutron_count,
    ensures
        divergence_sum(b, prev, ct, pt, n) == divergence_sum(a, prev, ct, pt, n),
    decreases n,
{
    if n > 0 {
        lemma_divergence_sum_same_counts(a, b, prev, ct, pt, n - 1);
        assert(b[n - 1].neutron_count == a[n - 1].neutron_count);
    }
}

proof fn lemma_neutron_prefix_same_counts(a: Seq<BinData>, b: Seq<BinData>, n: int)
    requires
        a.len() == b.len(),
        n <= a.len(),
        forall|i: int| 0 <= i < a.len() ==> #[trigger] b[i].neutron_count == a[i].neutron_count,
    ensures
        neutron_prefix(b, n) == neutron_prefix(a, n),
    decreases n,
{
    if n > 0 {
        lemma_neutron_prefix_same_counts(a, b, n - 1);
        assert(b[n - 1].neutron_count == a[n - 1].neutron_count);
    }
}

/// The convergence measure does not depend on how many neutrons a generation
/// holds, only on how they are spread over the bins: multiplying every count of
/// the current distribution by `k` leaves the measure unchanged, as a
/// fraction. This holds where the distribution has a positive total or no
/// negative count; a distribution with negative counts and a total below 1 is
/// left out, since raising its total to 1 is not proportional.
pub proof fn lemma_convergence_independent_of_population(
    a: Seq<BinData>,
    b: Seq<BinData>,
    prev: Seq<BinData>,
    k: int,
)
    requires
        a.len() == b.len(),
        1 <= k,
        neutron_total(a) >= 1 || counts_nonnegative(a),
        forall|i: int| 0 <= i < a.len() ==> #[trigger] b[i].neutron_count == k * a[i].neutron_count,
    ensures
        convergence_numerator(b, prev) * convergence_denominator(a, prev) == convergence_numerator(
            a,
            prev,
        ) * convergence_denominator(b, prev),
{
    if neutron_total(a) < 1 {
        assert forall|i: int| 0 <= i < a.len() implies #[trigger] b[i].neutron_count
            == a[i].neutron_count by {
            lemma_zero_total_counts_are_zero(a, i);
            assert(b[i].neutron_count == k * a[i].neutron_count);
        }
        lemma_neutron_prefix_same_counts(a, b, a.len() as int);
        lemma_divergence_sum_same_counts(a, b, prev, 1, clamped_total(prev), paired_len(a, prev));
        return;
    }
    let ct = neutron_total(a);
    let pt = clamped_total(prev);
    lemma_scaled_prefix(a, b, k, a.len() as int);
    assert(neutron_total(b) == k * ct);
    assert(k * ct >= 1) by (nonlinear_arith)
        requires
            1 <= k,
            1 <= ct,
    ;
    assert(clamped_total(b) == k * ct);
    assert(clamped_total(a) == ct);
    assert(paired_len(b, prev) == paired_len(a, prev));
    let n = paired_len(a, prev);
    lemma_scaled_divergence(a, b, prev, k, ct, pt, n);
    let s = divergence_sum(a, prev, ct, pt, n);
    assert((k * s) * (ct * pt) == s * ((k * ct) * pt)) by (nonlinear_arith);
}

proof fn lemma_divergence_sum_upper(
    cur: Seq<BinData>,
    prev: Seq<BinData>,
    ct: int,
    pt: int,
    n: int,
)
    requires
        1 <= ct < 0x8000_0000_0000_0000,
        1 <= pt < 0x8000_0000_0000_0000,
        0 <= n <= cur.len(),
        n <= prev.len(),
    ensures
        0 <= divergence_sum(cur, prev, ct, pt, n) <= n * 0x8000_0000_0000_0000_0000_0000_0000_0000,
    decreases n,
{
    if n > 0 {
        lemma_divergence_sum_upper(cur, prev, ct, pt, n - 1);
        let c = cur[n - 1].neutron_count as int;
        let p = prev[n - 1].neutron_count as int;
        assert(abs(c * pt - p * ct) <= 0x8000_0000_0000_0000_0000_0000_0000_0000) by (nonlinear_arith)
            requires
                -0x8000_0000_0000_0000 <= c < 0x8000_0000_0000_0000,
                -0x8000_0000_0000_0000 <= p < 0x8000_0000_0000_0000,
                1 <= ct < 0x8000_0000_0000_0000,
                1 <= pt < 0x8000_0000_0000_0000,
        ;
    }
}

/// Where the neutron totals fit in an `i64` and the distributions are as long
/// as a vector can be, the two words and the denominator of
/// `convergence_ratio` hold the measure exactly.
pub proof fn lemma_convergence_ratio_exact(cur: Seq<BinData>, prev: Seq<BinData>)
    requires
        neutron_sum_fits(cur),
        neutron_sum_fits(prev),
        cur.len() <= usize::MAX,
    ensures
        convergence_ratio(cur, prev).numerator() == convergence_numerator(cur, prev),
        convergence_ratio(cur, prev).denominator == convergence_denominator(cur, prev),
{
    let ct = clamped_total(cur);
    let pt = clamped_total(prev);
    assert(neutron_prefix(cur, cur.len() as int) <= i64::MAX);
    assert(neutron_prefix(prev, prev.len() as int) <= i64::MAX);
    let n = paired_len(cur, prev);
    lemma_divergence_sum_upper(cur, prev, ct, pt, n);
    let x = convergence_numerator(cur, prev);
    let w = word();
    assert(x < w * w) by (nonlinear_arith)
        requires
            0 <= n <= 0xffff_ffff_ffff_ffff,
            x <= n * 0x8000_0000_0000_0000_0000_0000_0000_0000,
            w == 0x1_0000_0000_0000_0000_0000_0000_0000_0000,
    ;
    vstd::arithmetic::div_mod::lemma_fundamental_div_mod(x, w);
    let q = x / w;
    let r = x % w;
    assert(0 <= q < w) by (nonlinear_arith)
        requires
            x == w * q + r,
            0 <= r < w,
            0 <= x < w * w,
            w > 0,
    ;
    assert(ct * pt < 0x4000_0000_0000_0000_0000_0000_0000_0000) by (nonlinear_arith)
        requires
            1 <= ct < 0x8000_0000_0000_0000,
            1 <= pt < 0x8000_0000_0000_0000,
    ;
}

proof fn lemma_neutron_prefix_is_fold(bins: Seq<BinData>, n: int)
    requires
        0 <= n <= bins.len(),
    ensures
        neutron_prefix(bins, n) == bins.take(n).fold_left(
            0int,
            |acc: int, b: BinData| acc + b.neutron_count,
        ),
    decreases n,
{
    if n > 0 {
        lemma_neutron_prefix_is_fold(bins, n - 1);
        assert(bins.take(n).drop_last() =~= bins.take(n - 1));
    }
}

/// The neutron total of a distribution is the sum of the neutron counts of
/// all its bins, and its clamped total is that sum raised to at least 1.
pub proof fn lemma_neutron_total_is_sum(bins: Seq<BinData>)
    ensures
        neutron_total(bins) == bins.fold_left(0int, |acc: int, b: BinData| acc + b.neutron_count),
        clamped_total(bins) == (if bins.fold_left(0int, |acc: int, b: BinData| acc + b.neutron_count)
            >= 1 {
            bins.fold_left(0int, |acc: int, b: BinData| acc + b.neutron_count)
        } else {
            1
        }),
        clamped_total(bins) >= 1,
{
    lemma_neutron_prefix_is_fold(bins, bins.len() as int);
    assert(bins.take(bins.len() as int) =~= bins);
}

proof fn lemma_divergence_sum_is_fold(
    cur: Seq<BinData>,
    prev: Seq<BinData>,
    ct: int,
    pt: int,
    n: int,
)
    requires
        0 <= n,
    ensures
        divergence_sum(cur, prev, ct, pt, n) == Seq::new(
            n as nat,
            |i: int|
                if cur[i].neutron_count * pt - prev[i].neutron_count * ct < 0 {
                    prev[i].neutron_count * ct - cur[i].neutron_count * pt
                } else {
                    cur[i].neutron_count * pt - prev[i].neutron_count * ct
                },
        ).fold_left(0int, |acc: int, x: int| acc + x),
    decreases n,
{
    let f = |i: int|
        if cur[i].neutron_count * pt - prev[i].neutron_count * ct < 0 {
            prev[i].neutron_count * ct - cur[i].neutron_count * pt
        } else {
            cur[i].neutron_count * pt - prev[i].neutron_count * ct
        };
    if n > 0 {
        lemma_divergence_sum_is_fold(cur, prev, ct, pt, n - 1);
        assert(Seq::new(n as nat, f).drop_last() =~= Seq::new((n - 1) as nat, f));
    }
}

/// The numerator of the convergence measure sums, over every bin `i` that the
/// two distributions share, `|cur[i] * P - prev[i] * C|`, where `C` and `P` are
/// the clamped totals of `cur` and `prev`; the denominator is `C * P`.
pub proof fn lemma_convergence_numerator_is_sum(cur: Seq<BinData>, prev: Seq<BinData>)
    ensures
        ({
            let c = clamped_total(cur);
            let p = clamped_total(prev);
            let m = if cur.len() <= prev.len() {
                cur.len()
            } else {
                prev.len()
            };
            &&& convergence_numerator(cur, prev) == Seq::new(
                m,
                |i: int|
                    if cur[i].neutron_count * p - prev[i].neutron_count * c < 0 {
                        prev[i].neutron_count * c - cur[i].neutron_count * p
                    } else {
                        cur[i].neutron_count * p - prev[i].neutron_count * c
                    },
            ).fold_left(0int, |acc: int, x: int| acc + x)
            &&& convergence_denominator(cur, prev) == c * p
        }),
{
    lemma_divergence_sum_is_fold(
        cur,
        prev,
        clamped_total(cur),
        clamped_total(prev),
        paired_len(cur, prev),
    );
}

proof fn lemma_divergence_sum_zero(
    cur: Seq<BinData>,
    prev: Seq<BinData>,
    ct: int,
    pt: int,
    n: int,
)
    requires
        0 <= n,
    ensures
        divergence_sum(cur, prev, ct, pt, n) == 0 <==> forall|i: int|
            0 <= i < n ==> #[trigger] cur[i].neutron_count * pt == prev[i].neutron_count * ct,
    decreases n,
{
    if n > 0 {
        lemma_divergence_sum_zero(cur, prev, ct, pt, n - 1);
        lemma_divergence_sum_monotone(cur, prev, ct, pt, 0, n - 1);
        if divergence_sum(cur, prev, ct, pt, n) == 0 {
            assert forall|i: int| 0 <= i < n implies #[trigger] cur[i].neutron_count * pt
                == prev[i].neutron_count * ct by {
                if i == n - 1 {
                } else {
                    assert(divergence_sum(cur, prev, ct, pt, n - 1) == 0);
                }
            }
        }
    }
}

/// Every bin the two distributions share counts: the measure is zero exactly
/// when each shared bin holds the same share of its generation's (clamped)
/// total, `cur[i] * P == prev[i] * C`, and no shared bin's term
/// `|cur[i] * P - prev[i] * C|` exceeds the numerator.
pub proof fn lemma_convergence_zero_iff_proportional(cur: Seq<BinData>, prev: Seq<BinData>)
    ensures
        ({
            let c = clamped_total(cur);
            let p = clamped_total(prev);
            let m = if cur.len() <= prev.len() {
                cur.len() as int
            } else {
                prev.len() as int
            };
            &&& convergence_numerator(cur, prev) == 0 <==> forall|i: int|
                0 <= i < m ==> #[trigger] cur[i].neutron_count * p == prev[i].neutron_count * c
            &&& forall|i: int|
                0 <= i < m ==> cur[i].neutron_count * p - prev[i].neutron_count * c
                    <= convergence_numerator(cur, prev) && prev[i].neutron_count * c
                    - #[trigger] cur[i].neutron_count * p <= convergence_numerator(cur, prev)
        }),
{
    let c = clamped_total(cur);
    let p = clamped_total(prev);
    let m = paired_len(cur, prev);
    lemma_divergence_sum_zero(cur, prev, c, p, m);
    assert forall|i: int| 0 <= i < m implies cur[i].neutron_count * p - prev[i].neutron_count * c
        <= convergence_numerator(cur, prev) && prev[i].neutron_count * c
        - #[trigger] cur[i].neutron_count * p <= convergence_numerator(cur, prev) by {
        lemma_divergence_sum_monotone(cur, prev, c, p, 0, i);
        lemma_divergence_sum_monotone(cur, prev, c, p, i + 1, m);
    }
}

/// The neutron counts of a distribution can be summed in `i64` exactly when
/// every running total, the sum of the first `k` bins for each `k`, lies in
/// the range of `i64`.
pub proof fn lemma_neutron_sum_fits_is_running_totals(bins: Seq<BinData>)
    ensures
        neutron_sum_fits(bins) <==> forall|k: int|
            #![trigger bins.take(k)]
            0 <= k <= bins.len() ==> i64::MIN <= bins.take(k).fold_left(
                0int,
                |acc: int, b: BinData| acc + b.neutron_count,
            ) <= i64::MAX,
{
    assert forall|k: int|
        #![trigger neutron_prefix(bins, k)]
        #![trigger bins.take(k)]
        0 <= k <= bins.len() implies neutron_prefix(bins, k) == bins.take(k).fold_left(0int, |acc: int, b: BinData| acc + b.neutron_count) by {
        lemma_neutron_prefix_is_fold(bins, k);
    }
}

} // verus!
