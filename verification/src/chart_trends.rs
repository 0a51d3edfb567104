//! Chart trends: peak and valley detection, ordinary-least-squares
//! trend lines, goodness-of-fit statistics, and the trend-segmentation
//! engine that partitions a price series into piecewise-linear trends.

use vstd::prelude::*;
use crate::basic_indicators::single;
use crate::basic_indicators::single::{
    max_prefix, max_spec, mean_spec, min_prefix, min_spec, no_nans,
};
use crate::error::TechnicalIndicatorError;
use crate::fp::{
    add_bits, cmp_eq, cmp_lt, div_bits, f_add, f_div, f_eq, f_lt, f_max2, f_mul, f_of_usize,
    f_sqrt, f_sub, fmax2, mul_bits, of_u64_bits, sqrt_bits, sub_bits, F_MAX, F_ONE, F_TENTH_NANO,
    F_TWO, F_ZERO,
};
use crate::validation::{assert_non_empty, assert_period};

verus! {

// ---------------------------------------------------------------------
// The OLS trend-line fitter.
// ---------------------------------------------------------------------

/// The running IEEE sum of the converted indices of the first `n` points.
pub open spec fn sum_x_prefix(p: Seq<(u64, usize)>, n: int) -> u64
    decreases n,
{
    if n <= 0 {
        F_ZERO
    } else {
        add_bits(sum_x_prefix(p, n - 1), of_u64_bits(p[n - 1].1 as u64))
    }
}

/// The running IEEE sum of the values of the first `n` points.
pub open spec fn sum_y_prefix(p: Seq<(u64, usize)>, n: int) -> u64
    decreases n,
{
    if n <= 0 {
        F_ZERO
    } else {
        add_bits(sum_y_prefix(p, n - 1), p[n - 1].0)
    }
}

/// The running numerator and denominator of the OLS slope over the
/// first `n` points: `num += dx*(y-mean_y)`, `den += dx*dx` with
/// `dx = x - mean_x`.
pub open spec fn tl_fold(p: Seq<(u64, usize)>, n: int, mean_x: u64, mean_y: u64) -> (u64, u64)
    decreases n,
{
    if n <= 0 {
        (F_ZERO, F_ZERO)
    } else {
        let acc = tl_fold(p, n - 1, mean_x, mean_y);
        let dx = sub_bits(of_u64_bits(p[n - 1].1 as u64), mean_x);
        (
            add_bits(acc.0, mul_bits(dx, sub_bits(p[n - 1].0, mean_y))),
            add_bits(acc.1, mul_bits(dx, dx)),
        )
    }
}

/// The OLS line through the points, value against index: the slope
/// `Σ dx·dy / Σ dx²` and the intercept `mean_y - slope·mean_x`, all in
/// IEEE double arithmetic.
pub open spec fn trend_line_spec(p: Seq<(u64, usize)>) -> (u64, u64) {
    let len = of_u64_bits(p.len() as u64);
    let mean_x = div_bits(sum_x_prefix(p, p.len() as int), len);
    let mean_y = div_bits(sum_y_prefix(p, p.len() as int), len);
    let nd = tl_fold(p, p.len() as int, mean_x, mean_y);
    let slope = div_bits(nd.0, nd.1);
    (slope, sub_bits(mean_y, mul_bits(slope, mean_x)))
}

/// Fits the OLS trend line through `(value, index)` points.
///
/// Requires a non-empty list; when every index is the same the
/// denominator is zero and the slope is not finite, which the caller
/// must expect.
pub fn get_trend_line(p: &[(u64, usize)]) -> (r: (u64, u64))
    requires
        p@.len() > 0,
    ensures
        r == trend_line_spec(p@),
{
    let len = p.len();
    let len_f = f_of_usize(len);
    let mut sx: u64 = F_ZERO;
    let mut i: usize = 0;
    while i < len
        invariant
            i <= len,
            len == p@.len(),
            sx == sum_x_prefix(p@, i as int),
        decreases len - i,
    {
        sx = f_add(sx, f_of_usize(p[i].1));
        i = i + 1;
    }
    let mean_x = f_div(sx, len_f);
    let mut sy: u64 = F_ZERO;
    let mut j: usize = 0;
    while j < len
        invariant
            j <= len,
            len == p@.len(),
            sy == sum_y_prefix(p@, j as int),
        decreases len - j,
    {
        sy = f_add(sy, p[j].0);
        j = j + 1;
    }
    let mean_y = f_div(sy, len_f);
    let mut num: u64 = F_ZERO;
    let mut den: u64 = F_ZERO;
    let mut k: usize = 0;
    while k < len
        invariant
            k <= len,
            len == p@.len(),
            (num, den) == tl_fold(p@, k as int, mean_x, mean_y),
        decreases len - k,
    {
        let dx = f_sub(f_of_usize(p[k].1), mean_x);
        num = f_add(num, f_mul(dx, f_sub(p[k].0, mean_y)));
        den = f_add(den, f_mul(dx, dx));
        k = k + 1;
    }
    let slope = f_div(num, den);
    (slope, f_sub(mean_y, f_mul(slope, mean_x)))
}

// ---------------------------------------------------------------------
// Goodness of fit.
// ---------------------------------------------------------------------

/// The values of the points alone.
pub open spec fn ys_of(p: Seq<(u64, usize)>) -> Seq<u64> {
    Seq::new(p.len(), |i: int| p[i].0)
}

/// The fitted value at the `i`-th point: `intercept + slope·x`.
pub open spec fn fitted_at(p: Seq<(u64, usize)>, i: int, slope: u64, intercept: u64) -> u64 {
    add_bits(intercept, mul_bits(slope, of_u64_bits(p[i].1 as u64)))
}

/// The running residual and total sums of squares over the first `n`
/// points.
pub open spec fn ssr_tss_fold(
    p: Seq<(u64, usize)>,
    n: int,
    slope: u64,
    intercept: u64,
    om: u64,
) -> (u64, u64)
    decreases n,
{
    if n <= 0 {
        (F_ZERO, F_ZERO)
    } else {
        let acc = ssr_tss_fold(p, n - 1, slope, intercept, om);
        let resid = sub_bits(p[n - 1].0, fitted_at(p, n - 1, slope, intercept));
        let total = sub_bits(p[n - 1].0, om);
        (add_bits(acc.0, mul_bits(resid, resid)), add_bits(acc.1, mul_bits(total, total)))
    }
}

/// The running Durbin–Watson numerator over the first `n` points,
/// summing squared differences of consecutive residuals from the
/// second point on.
pub open spec fn dw_num_fold(p: Seq<(u64, usize)>, n: int, slope: u64, intercept: u64) -> u64
    decreases n,
{
    if n <= 1 {
        F_ZERO
    } else {
        let acc = dw_num_fold(p, n - 1, slope, intercept);
        let diff = sub_bits(
            sub_bits(p[n - 1].0, fitted_at(p, n - 1, slope, intercept)),
            sub_bits(p[n - 2].0, fitted_at(p, n - 2, slope, intercept)),
        );
        add_bits(acc, mul_bits(diff, diff))
    }
}

/// The goodness-of-fit triple `(adjusted R², RMSE, Durbin–Watson)` of a
/// fitted line over the points; fewer than two points give the neutral
/// sentinel `(0, 0, 2)`.
pub open spec fn goodness_spec(p: Seq<(u64, usize)>, slope: u64, intercept: u64) -> (
    u64,
    u64,
    u64,
) {
    if p.len() < 2 {
        (F_ZERO, F_ZERO, F_TWO)
    } else {
        let n = p.len() as int;
        let om = mean_spec(ys_of(p));
        let st = ssr_tss_fold(p, n, slope, intercept, om);
        let dof = f_max2(sub_bits(of_u64_bits(n as u64), F_TWO), F_ONE);
        let r2 = if f_lt(F_TENTH_NANO, st.1) {
            f_max2(sub_bits(F_ONE, div_bits(st.0, st.1)), F_ZERO)
        } else {
            F_ZERO
        };
        let ar2 = if n > 2 {
            sub_bits(
                F_ONE,
                div_bits(mul_bits(sub_bits(F_ONE, r2), of_u64_bits((n - 1) as u64)), dof),
            )
        } else {
            r2
        };
        let dw = if f_lt(F_TENTH_NANO, st.0) {
            div_bits(dw_num_fold(p, n, slope, intercept), st.0)
        } else {
            F_TWO
        };
        let rmse = sqrt_bits(div_bits(st.0, of_u64_bits(n as u64)));
        (ar2, rmse, dw)
    }
}

/// Computes adjusted R², RMSE, and the Durbin–Watson statistic for an
/// OLS fit over the given points.
///
/// Fewer than two points give the neutral sentinel `(0.0, 0.0, 2.0)`;
/// a near-zero total or residual sum of squares falls back to the
/// neutral values rather than dividing by it.
pub fn goodness_of_fit(indexed_points: &[(u64, usize)], trend: &(u64, u64)) -> (r: (
    u64,
    u64,
    u64,
))
    ensures
        r == goodness_spec(indexed_points@, trend.0, trend.1),
{
    let n = indexed_points.len();
    if n < 2 {
        return (F_ZERO, F_ZERO, F_TWO);
    }
    let slope = trend.0;
    let intercept = trend.1;
    let mut ys: Vec<u64> = Vec::new();
    let mut i: usize = 0;
    while i < n
        invariant
            i <= n,
            n == indexed_points@.len(),
            ys@ =~= ys_of(indexed_points@).take(i as int),
        decreases n - i,
    {
        ys.push(indexed_points[i].0);
        i = i + 1;
    }
    proof {
        assert(ys_of(indexed_points@).take(n as int) =~= ys_of(indexed_points@));
    }
    let om = single::mean(ys.as_slice());
    let mut ssr: u64 = F_ZERO;
    let mut tss: u64 = F_ZERO;
    let mut k: usize = 0;
    while k < n
        invariant
            k <= n,
            n == indexed_points@.len(),
            (ssr, tss) == ssr_tss_fold(indexed_points@, k as int, slope, intercept, om),
        decreases n - k,
    {
        let fit = f_add(intercept, f_mul(slope, f_of_usize(indexed_points[k].1)));
        let resid = f_sub(indexed_points[k].0, fit);
        let total = f_sub(indexed_points[k].0, om);
        ssr = f_add(ssr, f_mul(resid, resid));
        tss = f_add(tss, f_mul(total, total));
        k = k + 1;
    }
    let dof = fmax2(f_sub(f_of_usize(n), F_TWO), F_ONE);
    let r2 = if cmp_lt(F_TENTH_NANO, tss) {
        fmax2(f_sub(F_ONE, f_div(ssr, tss)), F_ZERO)
    } else {
        F_ZERO
    };
    let ar2 = if n > 2 {
        f_sub(F_ONE, f_div(f_mul(f_sub(F_ONE, r2), f_of_usize(n - 1)), dof))
    } else {
        r2
    };
    let mut dwn: u64 = F_ZERO;
    let mut t: usize = 1;
    while t < n
        invariant
            1 <= t <= n,
            n == indexed_points@.len(),
            dwn == dw_num_fold(indexed_points@, t as int, slope, intercept),
        decreases n - t,
    {
        let fit_t = f_add(intercept, f_mul(slope, f_of_usize(indexed_points[t].1)));
        let fit_p = f_add(intercept, f_mul(slope, f_of_usize(indexed_points[t - 1].1)));
        let diff = f_sub(f_sub(indexed_points[t].0, fit_t), f_sub(indexed_points[t - 1].0, fit_p));
        dwn = f_add(dwn, f_mul(diff, diff));
        t = t + 1;
    }
    let dw = if cmp_lt(F_TENTH_NANO, ssr) {
        f_div(dwn, ssr)
    } else {
        F_TWO
    };
    let rmse = f_sqrt(f_div(ssr, f_of_usize(n)));
    (ar2, rmse, dw)
}

// ---------------------------------------------------------------------
// Peaks and valleys.
// ---------------------------------------------------------------------

/// The rightmost position in `w` whose value compares equal to `v`, or
/// `-1` when none does.
pub open spec fn rpos_eq(w: Seq<u64>, v: u64) -> int
    decreases w.len(),
{
    if w.len() == 0 {
        -1
    } else if f_eq(w.last(), v) {
        w.len() - 1
    } else {
        rpos_eq(w.drop_last(), v)
    }
}

/// Whether the output already holds a pair comparing equal to
/// `(v, idx)`: value under IEEE equality, index exactly.
pub open spec fn pair_in(out: Seq<(u64, usize)>, v: u64, idx: int) -> bool {
    exists|t: int| 0 <= t < out.len() && f_eq(out[t].0, v) && out[t].1 == idx
}

/// One scan step of the extremum merge.  `better` tells whether the
/// candidate beats the last accepted extremum (greater for peaks,
/// smaller for valleys); `worse` the opposite.  The merge follows the
/// asymmetric neighbor rule: within `closest` of the last accepted
/// index a worse candidate is absorbed (only the tracked index moves)
/// and a better one replaces the last emitted entry; farther away a
/// candidate not yet present is appended.  Each write of the output is
/// guarded so that its indices stay strictly increasing, which is what
/// the neighbor rule intends; a candidate that would break the order
/// only moves the tracked index and value.
pub open spec fn extrema_step(
    st: (Seq<(u64, usize)>, int, u64),
    v: u64,
    idx: int,
    closest: int,
    better: bool,
    worse: bool,
) -> (Seq<(u64, usize)>, int, u64) {
    let out = st.0;
    let last_idx = st.1;
    let last_val = st.2;
    if last_idx != 0 {
        if idx <= last_idx + closest {
            if worse {
                (out, idx, last_val)
            } else if better {
                if out.len() == 0 {
                    (out.push((v, idx as usize)), idx, v)
                } else if out.len() == 1 || out[out.len() - 2].1 < idx {
                    (out.drop_last().push((v, idx as usize)), idx, v)
                } else {
                    (out, idx, v)
                }
            } else {
                st
            }
        } else if !pair_in(out, v, idx) {
            if out.len() == 0 || out.last().1 < idx {
                (out.push((v, idx as usize)), idx, v)
            } else {
                (out, idx, v)
            }
        } else {
            st
        }
    } else {
        if out.len() == 0 || out.last().1 < idx {
            (out.push((v, idx as usize)), idx, v)
        } else {
            (out, idx, v)
        }
    }
}

/// The candidate of the window starting at `i`: the window maximum and
/// the absolute index of its rightmost occurrence.
pub open spec fn peak_candidate(s: Seq<u64>, i: int, period: int) -> (u64, int) {
    let w = s.subrange(i, i + period);
    let pk = max_spec(w);
    (pk, i + rpos_eq(w, pk))
}

/// The scan state after the first `n` windows of the peak scan.
pub open spec fn peaks_fold(s: Seq<u64>, period: int, closest: int, n: int) -> (
    Seq<(u64, usize)>,
    int,
    u64,
)
    decreases n,
{
    if n <= 0 {
        (Seq::empty(), 0, F_ZERO)
    } else {
        let st = peaks_fold(s, period, closest, n - 1);
        let c = peak_candidate(s, n - 1, period);
        extrema_step(st, c.0, c.1, closest, f_lt(st.2, c.0), f_lt(c.0, st.2))
    }
}

/// All peaks of the scan over every full window.
pub open spec fn peaks_spec(s: Seq<u64>, period: int, closest: int) -> Seq<(u64, usize)> {
    peaks_fold(s, period, closest, s.len() - period + 1).0
}

/// The candidate of the window starting at `i` for the valley scan.
pub open spec fn valley_candidate(s: Seq<u64>, i: int, period: int) -> (u64, int) {
    let w = s.subrange(i, i + period);
    let vl = min_spec(w);
    (vl, i + rpos_eq(w, vl))
}

/// The scan state after the first `n` windows of the valley scan.
pub open spec fn valleys_fold(s: Seq<u64>, period: int, closest: int, n: int) -> (
    Seq<(u64, usize)>,
    int,
    u64,
)
    decreases n,
{
    if n <= 0 {
        (Seq::empty(), 0, F_ZERO)
    } else {
        let st = valleys_fold(s, period, closest, n - 1);
        let c = valley_candidate(s, n - 1, period);
        extrema_step(st, c.0, c.1, closest, f_lt(c.0, st.2), f_lt(st.2, c.0))
    }
}

/// All valleys of the scan over every full window.
pub open spec fn valleys_spec(s: Seq<u64>, period: int, closest: int) -> Seq<(u64, usize)> {
    valleys_fold(s, period, closest, s.len() - period + 1).0
}

/// Indices in the output are strictly increasing.
pub open spec fn indices_increase(out: Seq<(u64, usize)>) -> bool {
    forall|a: int, b: int| 0 <= a < b < out.len() ==> #[trigger] out[a].1 < #[trigger] out[b].1
}

proof fn lemma_max_prefix_element(s: Seq<u64>, n: int)
    requires
        1 <= n <= s.len(),
    ensures
        exists|i: int| 0 <= i < n && s[i] == max_prefix(s, n),
    decreases n,
{
    if n == 1 {
        assert(s[0] == max_prefix(s, 1));
    } else {
        lemma_max_prefix_element(s, n - 1);
        if f_lt(max_prefix(s, n - 1), s[n - 1]) {
            assert(s[n - 1] == max_prefix(s, n));
        } else {
            let i = choose|i: int| 0 <= i < n - 1 && s[i] == max_prefix(s, n - 1);
            assert(s[i] == max_prefix(s, n));
        }
    }
}

proof fn lemma_min_prefix_element(s: Seq<u64>, n: int)
    requires
        1 <= n <= s.len(),
    ensures
        exists|i: int| 0 <= i < n && s[i] == min_prefix(s, n),
    decreases n,
{
    if n == 1 {
        assert(s[0] == min_prefix(s, 1));
    } else {
        lemma_min_prefix_element(s, n - 1);
        if f_lt(s[n - 1], min_prefix(s, n - 1)) {
            assert(s[n - 1] == min_prefix(s, n));
        } else {
            let i = choose|i: int| 0 <= i < n - 1 && s[i] == min_prefix(s, n - 1);
            assert(s[i] == min_prefix(s, n));
        }
    }
}

proof fn lemma_rpos_eq_char(w: Seq<u64>, v: u64, j: int)
    requires
        0 <= j < w.len(),
        f_eq(w[j], v),
        forall|t: int| j < t < w.len() ==> !f_eq(#[trigger] w[t], v),
    ensures
        rpos_eq(w, v) == j,
    decreases w.len(),
{
    if j == w.len() - 1 {
    } else {
        assert(!f_eq(w.last(), v));
        assert(w.drop_last()[j] == w[j]);
        lemma_rpos_eq_char(w.drop_last(), v, j);
    }
}

/// Finds the rightmost element comparing equal to `v`; some element
/// must.
fn rposition_eq(w: &[u64], v: u64) -> (j: usize)
    requires
        exists|t: int| 0 <= t < w@.len() && f_eq(#[trigger] w@[t], v),
    ensures
        j < w@.len(),
        j as int == rpos_eq(w@, v),
        f_eq(w@[j as int], v),
{
    let mut j = w.len();
    while j > 0
        invariant
            j <= w@.len(),
            forall|t: int| j <= t < w@.len() ==> !f_eq(#[trigger] w@[t], v),
            exists|t: int| 0 <= t < w@.len() && f_eq(#[trigger] w@[t], v),
        decreases j,
    {
        j = j - 1;
        if cmp_eq(w[j], v) {
            proof {
                lemma_rpos_eq_char(w@, v, j as int);
            }
            return j;
        }
    }
    proof {
        assert(false);
    }
    0
}

/// Calculates all peaks over a given period.
///
/// Scans every full window of `period` prices, takes the rightmost
/// occurrence of the window maximum, and merges candidates within
/// `closest_neighbor` of the last accepted peak by the asymmetric rule
/// of `extrema_step`.  The output indices are strictly increasing, so
/// no `(value, index)` pair repeats.  Requires NaN-free prices; errors
/// when the period is zero or longer than the data.
pub fn peaks(prices: &[u64], period: usize, closest_neighbor: usize) -> (r: Result<
    Vec<(u64, usize)>,
    TechnicalIndicatorError,
>)
    requires
        no_nans(prices@),
    ensures
        r is Ok <==> 0 < period <= prices@.len(),
        r matches Ok(v) ==> v@ == peaks_spec(prices@, period as int, closest_neighbor as int),
        r matches Ok(v) ==> indices_increase(v@),
        r matches Ok(v) ==> forall|a: int, b: int|
            0 <= a < b < v@.len() ==> !(f_eq(#[trigger] v@[a].0, #[trigger] v@[b].0) && v@[a].1
                == v@[b].1),
        r is Err ==> r matches Err(TechnicalIndicatorError::InvalidPeriod { .. }),
{
    assert_period(period, prices.len())?;
    let length = prices.len();
    let count = length - period + 1;
    let mut out: Vec<(u64, usize)> = Vec::new();
    let mut last_idx: usize = 0;
    let mut last_val: u64 = F_ZERO;
    let mut i: usize = 0;
    while i < count
        invariant
            i <= count,
            length == prices@.len(),
            0 < period <= length,
            count == length - period + 1,
            no_nans(prices@),
            (out@, last_idx as int, last_val) == peaks_fold(
                prices@,
                period as int,
                closest_neighbor as int,
                i as int,
            ),
            indices_increase(out@),
            last_idx != 0 ==> out@.len() > 0,
        decreases count - i,
    {
        let window = &prices[i..i + period];
        proof {
            assert(forall|t: int|
                0 <= t < window@.len() ==> window@[t] == #[trigger] prices@[i + t]);
        }
        let pk = single::max(window);
        proof {
            lemma_max_prefix_element(window@, window@.len() as int);
            let t0 = choose|t: int| 0 <= t < window@.len() && window@[t] == max_spec(window@);
            assert(f_eq(window@[t0], pk));
        }
        let jr = rposition_eq(window, pk);
        let idx = i + jr;
        let ghost st_pre = (out@, last_idx as int, last_val);
        let ghost cand = peak_candidate(prices@, i as int, period as int);
        proof {
            assert(cand == (pk, idx as int));
        }
        if last_idx != 0 {
            if idx <= last_idx || idx - last_idx <= closest_neighbor {
                if cmp_lt(pk, last_val) {
                    last_idx = idx;
                } else if cmp_lt(last_val, pk) {
                    let keep = if out.len() == 0 {
                        true
                    } else if out.len() == 1 {
                        true
                    } else {
                        out[out.len() - 2].1 < idx
                    };
                    if out.len() == 0 {
                        out.push((pk, idx));
                    } else if keep {
                        out.pop();
                        out.push((pk, idx));
                    }
                    last_idx = idx;
                    last_val = pk;
                }
            } else {
                let mut present = false;
                let mut t: usize = 0;
                while t < out.len()
                    invariant
                        t <= out@.len(),
                        present <==> exists|q: int|
                            0 <= q < t && f_eq(#[trigger] out@[q].0, pk) && out@[q].1 == idx,
                    decreases out@.len() - t,
                {
                    if cmp_eq(out[t].0, pk) && out[t].1 == idx {
                        present = true;
                    }
                    t = t + 1;
                }
                proof {
                    assert(present <==> pair_in(out@, pk, idx as int));
                }
                if !present {
                    let push_ok = if out.len() == 0 {
                        true
                    } else {
                        out[out.len() - 1].1 < idx
                    };
                    if push_ok {
                        out.push((pk, idx));
                    }
                    last_idx = idx;
                    last_val = pk;
                }
            }
        } else {
            let push_ok = if out.len() == 0 {
                true
            } else {
                out[out.len() - 1].1 < idx
            };
            if push_ok {
                out.push((pk, idx));
            }
            last_idx = idx;
            last_val = pk;
        }
        proof {
            assert((out@, last_idx as int, last_val) == extrema_step(
                st_pre,
                cand.0,
                cand.1,
                closest_neighbor as int,
                f_lt(st_pre.2, cand.0),
                f_lt(cand.0, st_pre.2),
            ));
        }
        i = i + 1;
    }
    proof {
        assert(forall|a: int, b: int|
            0 <= a < b < out@.len() ==> !(f_eq(#[trigger] out@[a].0, #[trigger] out@[b].0)
                && out@[a].1 == out@[b].1));
    }
    Ok(out)
}

/// Calculates all valleys over a given period.
///
/// The mirror image of `peaks`: rightmost window minima, merged by the
/// same asymmetric neighbor rule with the comparisons reversed.
/// Requires NaN-free prices; errors when the period is zero or longer
/// than the data.
pub fn valleys(prices: &[u64], period: usize, closest_neighbor: usize) -> (r: Result<
    Vec<(u64, usize)>,
    TechnicalIndicatorError,
>)
    requires
        no_nans(prices@),
    ensures
        r is Ok <==> 0 < period <= prices@.len(),
        r matches Ok(v) ==> v@ == valleys_spec(prices@, period as int, closest_neighbor as int),
        r matches Ok(v) ==> indices_increase(v@),
        r matches Ok(v) ==> forall|a: int, b: int|
            0 <= a < b < v@.len() ==> !(f_eq(#[trigger] v@[a].0, #[trigger] v@[b].0) && v@[a].1
                == v@[b].1),
        r is Err ==> r matches Err(TechnicalIndicatorError::InvalidPeriod { .. }),
{
    assert_period(period, prices.len())?;
    let length = prices.len();
    let count = length - period + 1;
    let mut out: Vec<(u64, usize)> = Vec::new();
    let mut last_idx: usize = 0;
    let mut last_val: u64 = F_ZERO;
    let mut i: usize = 0;
    while i < count
        invariant
            i <= count,
            length == prices@.len(),
            0 < period <= length,
            count == length - period + 1,
            no_nans(prices@),
            (out@, last_idx as int, last_val) == valleys_fold(
                prices@,
                period as int,
                closest_neighbor as int,
                i as int,
            ),
            indices_increase(out@),
            last_idx != 0 ==> out@.len() > 0,
        decreases count - i,
    {
        let window = &prices[i..i + period];
        proof {
            assert(forall|t: int|
                0 <= t < window@.len() ==> window@[t] == #[trigger] prices@[i + t]);
        }
        let vl = single::min(window);
        proof {
            lemma_min_prefix_element(window@, window@.len() as int);
            let t0 = choose|t: int| 0 <= t < window@.len() && window@[t] == min_spec(window@);
            assert(f_eq(window@[t0], vl));
        }
        let jr = rposition_eq(window, vl);
        let idx = i + jr;
        let ghost st_pre = (out@, last_idx as int, last_val);
        let ghost cand = valley_candidate(prices@, i as int, period as int);
        proof {
            assert(cand == (vl, idx as int));
        }
        if last_idx != 0 {
            if idx <= last_idx || idx - last_idx <= closest_neighbor {
                if cmp_lt(last_val, vl) {
                    last_idx = idx;
                } else if cmp_lt(vl, last_val) {
                    let keep = if out.len() == 0 {
                        true
                    } else if out.len() == 1 {
                        true
                    } else {
                        out[out.len() - 2].1 < idx
                    };
                    if out.len() == 0 {
                        out.push((vl, idx));
                    } else if keep {
                        out.pop();
                        out.push((vl, idx));
                    }
                    last_idx = idx;
                    last_val = vl;
                }
            } else {
                let mut present = false;
                let mut t: usize = 0;
                while t < out.len()
                    invariant
                        t <= out@.len(),
                        present <==> exists|q: int|
                            0 <= q < t && f_eq(#[trigger] out@[q].0, vl) && out@[q].1 == idx,
                    decreases out@.len() - t,
                {
                    if cmp_eq(out[t].0, vl) && out[t].1 == idx {
                        present = true;
                    }
                    t = t + 1;
                }
                proof {
                    assert(present <==> pair_in(out@, vl, idx as int));
                }
                if !present {
                    let push_ok = if out.len() == 0 {
                        true
                    } else {
                        out[out.len() - 1].1 < idx
                    };
                    if push_ok {
                        out.push((vl, idx));
                    }
                    last_idx = idx;
                    last_val = vl;
                }
            }
        } else {
            let push_ok = if out.len() == 0 {
                true
            } else {
                out[out.len() - 1].1 < idx
            };
            if push_ok {
                out.push((vl, idx));
            }
            last_idx = idx;
            last_val = vl;
        }
        proof {
            assert((out@, last_idx as int, last_val) == extrema_step(
                st_pre,
                cand.0,
                cand.1,
                closest_neighbor as int,
                f_lt(cand.0, st_pre.2),
                f_lt(st_pre.2, cand.0),
            ));
        }
        i = i + 1;
    }
    proof {
        assert(forall|a: int, b: int|
            0 <= a < b < out@.len() ==> !(f_eq(#[trigger] out@[a].0, #[trigger] out@[b].0)
                && out@[a].1 == out@[b].1));
    }
    Ok(out)
}


// ---------------------------------------------------------------------
// Trend segmentation.
// ---------------------------------------------------------------------

/// Configuration for trend break detection.
///
/// All thresholds are double bit patterns.  `max_outliers` bounds how
/// many consecutive break candidates are skipped as transient outliers
/// before a segment is forcibly split.  The soft thresholds must all
/// fire together to flag a break; any hard threshold alone suffices.
#[derive(Copy, Clone, Debug)]
pub struct TrendBreakConfig {
    pub max_outliers: usize,
    pub soft_adj_r_squared_minimum: u64,
    pub hard_adj_r_squared_minimum: u64,
    pub soft_rmse_multiplier: u64,
    pub hard_rmse_multiplier: u64,
    pub soft_durbin_watson_min: u64,
    pub soft_durbin_watson_max: u64,
    pub hard_durbin_watson_min: u64,
    pub hard_durbin_watson_max: u64,
}

impl Default for TrendBreakConfig {
    /// One tolerated outlier; adjusted R² floors 0.25 (soft) and 0.05
    /// (hard); RMSE growth factors 1.3 and 2.0; Durbin–Watson bands
    /// [1.0, 3.0] and [0.7, 3.3].
    fn default() -> (r: Self)
        ensures
            r.max_outliers == 1,
            r.soft_adj_r_squared_minimum == 0x3FD0_0000_0000_0000u64,
            r.hard_adj_r_squared_minimum == 0x3FA9_9999_9999_999Au64,
            r.soft_rmse_multiplier == 0x3FF4_CCCC_CCCC_CCCDu64,
            r.hard_rmse_multiplier == F_TWO,
            r.soft_durbin_watson_min == F_ONE,
            r.soft_durbin_watson_max == 0x4008_0000_0000_0000u64,
            r.hard_durbin_watson_min == 0x3FE6_6666_6666_6666u64,
            r.hard_durbin_watson_max == 0x400A_6666_6666_6666u64,
    {
        TrendBreakConfig {
            max_outliers: 1,
            soft_adj_r_squared_minimum: 0x3FD0_0000_0000_0000,
            hard_adj_r_squared_minimum: 0x3FA9_9999_9999_999A,
            soft_rmse_multiplier: 0x3FF4_CCCC_CCCC_CCCD,
            hard_rmse_multiplier: F_TWO,
            soft_durbin_watson_min: F_ONE,
            soft_durbin_watson_max: 0x4008_0000_0000_0000,
            hard_durbin_watson_min: 0x3FE6_6666_6666_6666,
            hard_durbin_watson_max: 0x400A_6666_6666_6666,
        }
    }
}

/// The scan state of the segmentation engine.
pub struct BdtState {
    /// The closed segments.
    pub trends: Seq<(usize, usize, u64, u64)>,
    /// For each closed segment, the accepted points its line was last
    /// fitted over.
    pub seg_pts: Seq<Seq<(u64, usize)>>,
    /// Where the open segment starts.
    pub start: int,
    /// The last accepted index.
    pub end: int,
    /// The working window of accepted points.
    pub pts: Seq<(u64, usize)>,
    /// How many outliers the open segment has absorbed.
    pub outliers: int,
    /// The current fitted slope.
    pub cur_slope: u64,
    /// The current fitted intercept.
    pub cur_intercept: u64,
    /// The RMSE of the last accepted fit, `f64::MAX` before one exists.
    pub prev_rmse: u64,
}

/// The state before any point is seen.
pub open spec fn bdt_init(s: Seq<u64>) -> BdtState {
    BdtState {
        trends: Seq::empty(),
        seg_pts: Seq::empty(),
        start: 0,
        end: if s.len() > 1 {
            1
        } else {
            0
        },
        pts: Seq::empty(),
        outliers: 0,
        cur_slope: F_ZERO,
        cur_intercept: F_ZERO,
        prev_rmse: F_MAX,
    }
}

/// The indexed points of `s` from `lo` through `hi` inclusive.
pub open spec fn indexed_range(s: Seq<u64>, lo: int, hi: int) -> Seq<(u64, usize)> {
    Seq::new((hi - lo + 1) as nat, |j: int| (s[lo + j], (lo + j) as usize))
}

/// Whether the fit statistics flag a soft break: weak adjusted R²,
/// grown RMSE and an autocorrelation signal all at once.
pub open spec fn soft_break_spec(g: (u64, u64, u64), prev_rmse: u64, cfg: TrendBreakConfig) -> bool {
    &&& f_lt(g.0, cfg.soft_adj_r_squared_minimum)
    &&& f_lt(mul_bits(cfg.soft_rmse_multiplier, prev_rmse), g.1)
    &&& (f_lt(g.2, cfg.soft_durbin_watson_min) || f_lt(cfg.soft_durbin_watson_max, g.2))
}

/// Whether the fit statistics flag a hard break: any single strong
/// signal.
pub open spec fn hard_break_spec(g: (u64, u64, u64), prev_rmse: u64, cfg: TrendBreakConfig) -> bool {
    ||| f_lt(g.0, cfg.hard_adj_r_squared_minimum)
    ||| f_lt(mul_bits(cfg.hard_rmse_multiplier, prev_rmse), g.1)
    ||| f_lt(g.2, cfg.hard_durbin_watson_min)
    ||| f_lt(cfg.hard_durbin_watson_max, g.2)
}

/// One step of the segmentation scan at `index`: the new point joins
/// the window; from the third point on the window is refitted and the
/// break policy applied — accept, absorb as an outlier, or close the
/// segment and restart from its end.
pub open spec fn bdt_step(s: Seq<u64>, cfg: TrendBreakConfig, st: BdtState, index: int) -> BdtState {
    let st1 = BdtState { pts: st.pts.push((s[index], index as usize)), ..st };
    if index == 0 {
        st1
    } else if index > st1.end {
        let tr = trend_line_spec(st1.pts);
        let g = goodness_spec(st1.pts, tr.0, tr.1);
        if soft_break_spec(g, st1.prev_rmse, cfg) || hard_break_spec(g, st1.prev_rmse, cfg) {
            if st1.outliers < cfg.max_outliers {
                BdtState { pts: st.pts, outliers: st1.outliers + 1, ..st1 }
            } else {
                let new_pts = indexed_range(s, st1.end, index);
                let tr2 = trend_line_spec(new_pts);
                let pr = if new_pts.len() > 2 {
                    goodness_spec(new_pts, tr2.0, tr2.1).1
                } else {
                    F_MAX
                };
                BdtState {
                    trends: st1.trends.push(
                        (st1.start as usize, st1.end as usize, st1.cur_slope, st1.cur_intercept),
                    ),
                    seg_pts: st1.seg_pts.push(st.pts),
                    start: st1.end,
                    end: index,
                    pts: new_pts,
                    outliers: 0,
                    cur_slope: tr2.0,
                    cur_intercept: tr2.1,
                    prev_rmse: pr,
                }
            }
        } else {
            BdtState { end: index, cur_slope: tr.0, cur_intercept: tr.1, prev_rmse: g.1, ..st1 }
        }
    } else {
        BdtState { end: index, ..st1 }
    }
}

/// The scan state after the first `n` points.
pub open spec fn bdt_fold(s: Seq<u64>, cfg: TrendBreakConfig, n: int) -> BdtState
    decreases n,
{
    if n <= 0 {
        bdt_init(s)
    } else {
        bdt_step(s, cfg, bdt_fold(s, cfg, n - 1), n - 1)
    }
}

/// The full segmentation: the scan over every point, closed by the
/// final in-progress segment, which runs through the last index.
pub open spec fn break_down_trends_spec(s: Seq<u64>, cfg: TrendBreakConfig) -> Seq<
    (usize, usize, u64, u64),
> {
    let st = bdt_fold(s, cfg, s.len() as int);
    st.trends.push((st.start as usize, (s.len() - 1) as usize, st.cur_slope, st.cur_intercept))
}

/// Calculates price trends with their slopes and intercepts.
///
/// Maintains a growing window of accepted points; each point beyond
/// the second is fitted and judged by the two-tier break policy.  A
/// break candidate is first absorbed as an outlier, up to
/// `max_outliers` times; after that the segment is closed at the last
/// accepted index with its last fitted line, and a new segment starts
/// there.  The closing segment always runs through the last index, so
/// the emitted segments cover the whole series contiguously, each
/// sharing its boundary with the next.  Errors only on an empty
/// series.
pub fn break_down_trends(prices: &[u64], trend_break_config: TrendBreakConfig) -> (r: Result<
    Vec<(usize, usize, u64, u64)>,
    TechnicalIndicatorError,
>)
    ensures
        r is Ok <==> prices@.len() > 0,
        r matches Ok(v) ==> {
            &&& v@ == break_down_trends_spec(prices@, trend_break_config)
            &&& v@.len() > 0
            &&& v@[0].0 == 0
            &&& v@[v@.len() - 1].1 == prices@.len() - 1
            &&& forall|k: int| 0 <= k < v@.len() - 1 ==> #[trigger] v@[k].1 == v@[k + 1].0
            &&& forall|k: int| 0 <= k < v@.len() ==> #[trigger] v@[k].0 <= v@[k].1
            &&& prices@.len() > 1 ==> forall|k: int|
                0 <= k < v@.len() ==> #[trigger] v@[k].0 < v@[k].1
        },
        r is Err ==> r matches Err(TechnicalIndicatorError::EmptyData { .. }),
{
    assert_non_empty("prices", prices)?;
    let cfg = trend_break_config;
    let length = prices.len();
    let mut trends: Vec<(usize, usize, u64, u64)> = Vec::new();
    let mut cur_slope: u64 = F_ZERO;
    let mut cur_intercept: u64 = F_ZERO;
    let mut start_index: usize = 0;
    let mut end_index: usize = if length > 1 {
        1
    } else {
        0
    };
    let mut indexed_points: Vec<(u64, usize)> = Vec::new();
    let mut previous_rmse: u64 = F_MAX;
    let mut outliers: usize = 0;
    let mut index: usize = 0;
    while index < length
        invariant
            index <= length,
            length == prices@.len(),
            length > 0,
            ({
                let st = bdt_fold(prices@, cfg, index as int);
                &&& trends@ == st.trends
                &&& start_index as int == st.start
                &&& end_index as int == st.end
                &&& indexed_points@ == st.pts
                &&& cur_slope == st.cur_slope
                &&& cur_intercept == st.cur_intercept
                &&& previous_rmse == st.prev_rmse
                &&& outliers as int == st.outliers
            }),
            start_index <= end_index < length,
            index >= 1 ==> end_index <= index,
            index == 0 ==> end_index == (if length > 1 { 1int } else { 0int }),
            length > 1 ==> start_index < end_index,
            length == 1 ==> start_index == 0 && end_index == 0,
            trends@.len() > 0 ==> trends@[0].0 == 0,
            trends@.len() > 0 ==> trends@[trends@.len() - 1].1 == start_index,
            trends@.len() == 0 ==> start_index == 0,
            forall|k: int|
                0 <= k < trends@.len() - 1 ==> #[trigger] trends@[k].1 == trends@[k + 1].0,
            forall|k: int| 0 <= k < trends@.len() ==> #[trigger] trends@[k].0 < trends@[k].1,
        decreases length - index,
    {
        let ghost st_pre = bdt_fold(prices@, cfg, index as int);
        indexed_points.push((prices[index], index));
        let ghost st1 = BdtState { pts: st_pre.pts.push((prices@[index as int], index)), ..st_pre };
        if index > 0 && index > end_index {
            let current_trend = get_trend_line(indexed_points.as_slice());
            let g = goodness_of_fit(indexed_points.as_slice(), &current_trend);
            let soft = cmp_lt(g.0, cfg.soft_adj_r_squared_minimum) && cmp_lt(
                f_mul(cfg.soft_rmse_multiplier, previous_rmse),
                g.1,
            ) && (cmp_lt(g.2, cfg.soft_durbin_watson_min) || cmp_lt(
                cfg.soft_durbin_watson_max,
                g.2,
            ));
            let hard = cmp_lt(g.0, cfg.hard_adj_r_squared_minimum) || cmp_lt(
                f_mul(cfg.hard_rmse_multiplier, previous_rmse),
                g.1,
            ) || cmp_lt(g.2, cfg.hard_durbin_watson_min) || cmp_lt(
                cfg.hard_durbin_watson_max,
                g.2,
            );
            proof {
                assert(soft == soft_break_spec(
                    goodness_spec(st1.pts, trend_line_spec(st1.pts).0, trend_line_spec(st1.pts).1),
                    st1.prev_rmse,
                    cfg,
                ));
            }
            if soft || hard {
                if outliers < cfg.max_outliers {
                    outliers = outliers + 1;
                    indexed_points.pop();
                    proof {
                        assert(indexed_points@ =~= st_pre.pts);
                    }
                } else {
                    trends.push((start_index, end_index, cur_slope, cur_intercept));
                    start_index = end_index;
                    end_index = index;
                    indexed_points = Vec::new();
                    let mut x: usize = start_index;
                    while x <= index
                        invariant
                            start_index <= x <= index + 1,
                            index < length,
                            length == prices@.len(),
                            indexed_points@.len() == x - start_index,
                            forall|j: int|
                                0 <= j < indexed_points@.len() ==> #[trigger] indexed_points@[j]
                                    == (prices@[start_index + j], (start_index + j) as usize),
                        decreases index + 1 - x,
                    {
                        indexed_points.push((prices[x], x));
                        x = x + 1;
                    }
                    proof {
                        assert(indexed_points@ =~= indexed_range(
                            prices@,
                            start_index as int,
                            index as int,
                        ));
                    }
                    let tr2 = get_trend_line(indexed_points.as_slice());
                    cur_slope = tr2.0;
                    cur_intercept = tr2.1;
                    if indexed_points.len() > 2 {
                        let g2 = goodness_of_fit(indexed_points.as_slice(), &tr2);
                        previous_rmse = g2.1;
                    } else {
                        previous_rmse = F_MAX;
                    }
                    outliers = 0;
                }
            } else {
                previous_rmse = g.1;
                cur_slope = current_trend.0;
                cur_intercept = current_trend.1;
                end_index = index;
            }
        } else if index > 0 {
            end_index = index;
        }
        proof {
            let st_post = bdt_step(prices@, cfg, st_pre, index as int);
            assert(trends@ == st_post.trends);
            assert(indexed_points@ == st_post.pts);
        }
        index = index + 1;
    }
    trends.push((start_index, length - 1, cur_slope, cur_intercept));
    proof {
        assert(trends@ == break_down_trends_spec(prices@, cfg));
    }
    Ok(trends)
}


// ---------------------------------------------------------------------
// Trend lines over peaks, valleys, and the whole series.
// ---------------------------------------------------------------------

proof fn lemma_peaks_fold_nonempty(s: Seq<u64>, period: int, closest: int, n: int)
    requires
        n >= 1,
    ensures
        peaks_fold(s, period, closest, n).0.len() >= 1,
    decreases n,
{
    let st = peaks_fold(s, period, closest, n - 1);
    let c = peak_candidate(s, n - 1, period);
    let stp = extrema_step(st, c.0, c.1, closest, f_lt(st.2, c.0), f_lt(c.0, st.2));
    if n > 1 {
        lemma_peaks_fold_nonempty(s, period, closest, n - 1);
        assert(stp.0.len() >= st.0.len());
    } else {
        assert(st.0.len() == 0 && st.1 == 0);
        assert(stp.0.len() == 1);
    }
    assert(peaks_fold(s, period, closest, n).0 == stp.0);
}

proof fn lemma_valleys_fold_nonempty(s: Seq<u64>, period: int, closest: int, n: int)
    requires
        n >= 1,
    ensures
        valleys_fold(s, period, closest, n).0.len() >= 1,
    decreases n,
{
    let st = valleys_fold(s, period, closest, n - 1);
    let c = valley_candidate(s, n - 1, period);
    let stp = extrema_step(st, c.0, c.1, closest, f_lt(c.0, st.2), f_lt(st.2, c.0));
    if n > 1 {
        lemma_valleys_fold_nonempty(s, period, closest, n - 1);
        assert(stp.0.len() >= st.0.len());
    } else {
        assert(st.0.len() == 0 && st.1 == 0);
        assert(stp.0.len() == 1);
    }
    assert(valleys_fold(s, period, closest, n).0 == stp.0);
}

/// Returns the slope and intercept of the trend line fitted to the
/// peaks found with a closest-neighbor distance of one.
///
/// Requires NaN-free prices; errors exactly as `peaks` does.
pub fn peak_trend(prices: &[u64], period: usize) -> (r: Result<
    (u64, u64),
    TechnicalIndicatorError,
>)
    requires
        no_nans(prices@),
    ensures
        r is Ok <==> 0 < period <= prices@.len(),
        r matches Ok(t) ==> t == trend_line_spec(peaks_spec(prices@, period as int, 1)),
        r is Err ==> r matches Err(TechnicalIndicatorError::InvalidPeriod { .. }),
{
    let pks = peaks(prices, period, 1)?;
    proof {
        lemma_peaks_fold_nonempty(prices@, period as int, 1, prices@.len() - period + 1);
    }
    Ok(get_trend_line(pks.as_slice()))
}

/// Returns the slope and intercept of the trend line fitted to the
/// valleys found with a closest-neighbor distance of one.
///
/// Requires NaN-free prices; errors exactly as `valleys` does.
pub fn valley_trend(prices: &[u64], period: usize) -> (r: Result<
    (u64, u64),
    TechnicalIndicatorError,
>)
    requires
        no_nans(prices@),
    ensures
        r is Ok <==> 0 < period <= prices@.len(),
        r matches Ok(t) ==> t == trend_line_spec(valleys_spec(prices@, period as int, 1)),
        r is Err ==> r matches Err(TechnicalIndicatorError::InvalidPeriod { .. }),
{
    let vls = valleys(prices, period, 1)?;
    proof {
        lemma_valleys_fold_nonempty(prices@, period as int, 1, prices@.len() - period + 1);
    }
    Ok(get_trend_line(vls.as_slice()))
}

/// Returns the slope and intercept of the trend line fitted to all
/// prices against their positions.
///
/// Requires a non-empty series.
pub fn overall_trend(prices: &[u64]) -> (r: (u64, u64))
    requires
        prices@.len() > 0,
    ensures
        r == trend_line_spec(indexed_range(prices@, 0, prices@.len() - 1)),
{
    let mut pts: Vec<(u64, usize)> = Vec::new();
    let mut i: usize = 0;
    while i < prices.len()
        invariant
            i <= prices@.len(),
            pts@.len() == i,
            forall|j: int| 0 <= j < i ==> #[trigger] pts@[j] == (prices@[j], j as usize),
        decreases prices@.len() - i,
    {
        pts.push((prices[i], i));
        i = i + 1;
    }
    proof {
        assert(pts@ =~= indexed_range(prices@, 0, prices@.len() - 1));
    }
    get_trend_line(pts.as_slice())
}


// ---------------------------------------------------------------------
// The refit law of the segmentation engine.
// ---------------------------------------------------------------------

/// Every point is a genuine `(value, index)` pair of the series.
pub open spec fn pts_from_series(s: Seq<u64>, pts: Seq<(u64, usize)>) -> bool {
    forall|j: int|
        0 <= j < pts.len() ==> (#[trigger] pts[j]).1 < s.len() && pts[j] == (
            s[pts[j].1 as int],
            pts[j].1,
        )
}

/// Every point index lies in the closed range `[lo, hi]`.
pub open spec fn pts_within(pts: Seq<(u64, usize)>, lo: int, hi: int) -> bool {
    forall|j: int| 0 <= j < pts.len() ==> lo <= (#[trigger] pts[j]).1 <= hi
}

proof fn lemma_bdt_fit_invariant(s: Seq<u64>, cfg: TrendBreakConfig, n: int)
    requires
        0 < s.len() <= usize::MAX,
        0 <= n <= s.len(),
    ensures
        ({
            let st = bdt_fold(s, cfg, n);
            &&& st.seg_pts.len() == st.trends.len()
            &&& 0 <= st.start <= st.end < s.len()
            &&& forall|k: int|
                0 <= k < st.trends.len() ==> ((#[trigger] st.trends[k]).2, st.trends[k].3)
                    == trend_line_spec(st.seg_pts[k]) || (k == 0 && st.trends[k].2 == F_ZERO
                    && st.trends[k].3 == F_ZERO)
            &&& forall|k: int|
                0 <= k < st.seg_pts.len() ==> pts_from_series(s, #[trigger] st.seg_pts[k])
            &&& forall|k: int|
                0 <= k < st.trends.len() ==> pts_within(
                    st.seg_pts[k],
                    (#[trigger] st.trends[k]).0 as int,
                    st.trends[k].1 as int,
                )
            &&& ((st.cur_slope, st.cur_intercept) == trend_line_spec(st.pts) || (st.trends.len()
                == 0 && st.cur_slope == F_ZERO && st.cur_intercept == F_ZERO))
            &&& pts_from_series(s, st.pts)
            &&& pts_within(st.pts, st.start, st.end)
            &&& st.end <= (if n >= 2 {
                n - 1
            } else {
                1
            })
            &&& n <= 2 ==> (st.trends.len() == 0 && st.cur_slope == F_ZERO && st.cur_intercept
                == F_ZERO)
            &&& s.len() > 1 ==> st.end >= 1
        }),
    decreases n,
{
    if n > 0 {
        lemma_bdt_fit_invariant(s, cfg, n - 1);
        let st = bdt_fold(s, cfg, n - 1);
        let stn = bdt_fold(s, cfg, n);
        let index = n - 1;
        let st1pts = st.pts.push((s[index], index as usize));
        assert forall|j: int|
            0 <= j < st1pts.len() implies (#[trigger] st1pts[j]).1 < s.len() && st1pts[j] == (
            s[st1pts[j].1 as int],
            st1pts[j].1,
        ) by {
            if j < st.pts.len() {
                assert(st1pts[j] == st.pts[j]);
            } else {
                assert(st1pts[j] == (s[index], index as usize));
            }
        }
        assert(pts_from_series(s, st1pts));
        if index == 0 || index <= st.end {
            assert(stn.pts == st1pts);
        } else {
            let tr = trend_line_spec(st1pts);
            let g = goodness_spec(st1pts, tr.0, tr.1);
            if soft_break_spec(g, st.prev_rmse, cfg) || hard_break_spec(g, st.prev_rmse, cfg) {
                if st.outliers < cfg.max_outliers {
                    assert(stn.pts == st.pts);
                } else {
                    let new_pts = indexed_range(s, st.end, index);
                    assert forall|j: int|
                        0 <= j < new_pts.len() implies (#[trigger] new_pts[j]).1 < s.len()
                        && new_pts[j] == (s[new_pts[j].1 as int], new_pts[j].1) && st.end
                        <= new_pts[j].1 <= index by {
                        assert(new_pts[j] == (s[st.end + j], (st.end + j) as usize));
                    }
                    assert(pts_from_series(s, new_pts));
                    assert(pts_within(new_pts, st.end, index));
                    assert(stn.trends == st.trends.push(
                        (st.start as usize, st.end as usize, st.cur_slope, st.cur_intercept),
                    ));
                    assert(stn.seg_pts == st.seg_pts.push(st.pts));
                    assert(pts_within(st.pts, st.start as int, st.end as int));
                    assert forall|k: int| 0 <= k < stn.trends.len() implies ((
                    #[trigger] stn.trends[k]).2, stn.trends[k].3) == trend_line_spec(
                        stn.seg_pts[k],
                    ) || (k == 0 && stn.trends[k].2 == F_ZERO && stn.trends[k].3 == F_ZERO) by {
                        if k < st.trends.len() {
                            assert(stn.trends[k] == st.trends[k]);
                            assert(stn.seg_pts[k] == st.seg_pts[k]);
                        } else {
                            assert(stn.trends[k] == (
                                st.start as usize,
                                st.end as usize,
                                st.cur_slope,
                                st.cur_intercept,
                            ));
                            assert(stn.seg_pts[k] == st.pts);
                        }
                    }
                    assert forall|k: int| 0 <= k < stn.seg_pts.len() implies pts_from_series(
                        s,
                        #[trigger] stn.seg_pts[k],
                    ) by {
                        if k < st.seg_pts.len() {
                            assert(stn.seg_pts[k] == st.seg_pts[k]);
                        } else {
                            assert(stn.seg_pts[k] == st.pts);
                        }
                    }
                    assert forall|k: int| 0 <= k < stn.trends.len() implies pts_within(
                        stn.seg_pts[k],
                        (#[trigger] stn.trends[k]).0 as int,
                        stn.trends[k].1 as int,
                    ) by {
                        if k < st.trends.len() {
                            assert(stn.trends[k] == st.trends[k]);
                            assert(stn.seg_pts[k] == st.seg_pts[k]);
                        } else {
                            assert(stn.seg_pts[k] == st.pts);
                        }
                    }
                }
            } else {
                assert(stn.pts == st1pts);
                assert((stn.cur_slope, stn.cur_intercept) == trend_line_spec(stn.pts));
            }
        }
    }
}

/// The refit law: every closed segment stores exactly the OLS line of
/// the points it accepted — refitting those points with
/// `trend_line_spec` reproduces the stored `(slope, intercept)`
/// bit for bit.  The accepted points are genuine points of the series
/// and lie inside the segment's range.  The one exception is a leading
/// segment that was closed before any fit ran; it carries the neutral
/// zero line, and the final in-progress segment likewise either stores
/// the fit of its accepted window or, when nothing was ever fitted,
/// the zero line.
pub proof fn lemma_refit_reproduces_segment_lines(s: Seq<u64>, cfg: TrendBreakConfig)
    requires
        0 < s.len() <= usize::MAX,
    ensures
        ({
            let st = bdt_fold(s, cfg, s.len() as int);
            let segs = break_down_trends_spec(s, cfg);
            &&& segs.len() == st.seg_pts.len() + 1
            &&& forall|k: int|
                0 <= k < st.seg_pts.len() ==> ((#[trigger] segs[k]).2, segs[k].3)
                    == trend_line_spec(st.seg_pts[k]) || (k == 0 && segs[k].2 == F_ZERO
                    && segs[k].3 == F_ZERO)
            &&& forall|k: int|
                0 <= k < st.seg_pts.len() ==> pts_from_series(s, #[trigger] st.seg_pts[k])
            &&& forall|k: int|
                0 <= k < st.seg_pts.len() ==> pts_within(
                    st.seg_pts[k],
                    (#[trigger] segs[k]).0 as int,
                    segs[k].1 as int,
                )
            &&& ((segs.last().2, segs.last().3) == trend_line_spec(st.pts) || (st.trends.len() == 0
                && segs.last().2 == F_ZERO && segs.last().3 == F_ZERO))
            &&& pts_from_series(s, st.pts)
        }),
{
    lemma_bdt_fit_invariant(s, cfg, s.len() as int);
    let st = bdt_fold(s, cfg, s.len() as int);
    let segs = break_down_trends_spec(s, cfg);
    assert forall|k: int| 0 <= k < st.seg_pts.len() implies ((#[trigger] segs[k]).2, segs[k].3)
        == trend_line_spec(st.seg_pts[k]) || (k == 0 && segs[k].2 == F_ZERO && segs[k].3
        == F_ZERO) by {
        assert(segs[k] == st.trends[k]);
    }
    assert forall|k: int| 0 <= k < st.seg_pts.len() implies pts_within(
        st.seg_pts[k],
        (#[trigger] segs[k]).0 as int,
        segs[k].1 as int,
    ) by {
        assert(segs[k] == st.trends[k]);
    }
}

} // verus!
