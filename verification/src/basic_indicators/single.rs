//! Statistics over one whole slice of prices.
//!
//! Every function's result is pinned by a spec-level mirror written
//! over the named IEEE-754 operations and the verified bit-level
//! comparisons, so two calls on equal inputs provably agree.

use vstd::prelude::*;
use crate::fp::{
    add_bits, cmp_lt, div_bits, f_add, f_div, f_is_nan, f_is_nan_e, f_lt, f_max2, f_min2,
    f_of_i128, f_of_usize, f_round_i64, fmax2, fmin2, of_i128_bits, of_u64_bits, round_i64_spec,
    F_QNAN, F_TWO, F_ZERO,
};

verus! {

/// The sum of the first `n` prices, folded left with IEEE addition
/// starting from `+0.0`.
pub open spec fn sum_prefix(s: Seq<u64>, n: int) -> u64
    decreases n,
{
    if n <= 0 {
        F_ZERO
    } else {
        add_bits(sum_prefix(s, n - 1), s[n - 1])
    }
}

/// The mean: the full sum divided by the length.
pub open spec fn mean_spec(s: Seq<u64>) -> u64 {
    div_bits(sum_prefix(s, s.len() as int), of_u64_bits(s.len() as u64))
}

/// The running maximum of the first `n` prices.
pub open spec fn max_prefix(s: Seq<u64>, n: int) -> u64
    decreases n,
{
    if n <= 1 {
        s[0]
    } else {
        f_max2(max_prefix(s, n - 1), s[n - 1])
    }
}

/// The maximum of a non-empty slice of non-NaN prices.
pub open spec fn max_spec(s: Seq<u64>) -> u64 {
    max_prefix(s, s.len() as int)
}

/// The running minimum of the first `n` prices.
pub open spec fn min_prefix(s: Seq<u64>, n: int) -> u64
    decreases n,
{
    if n <= 1 {
        s[0]
    } else {
        f_min2(min_prefix(s, n - 1), s[n - 1])
    }
}

/// The minimum of a non-empty slice of non-NaN prices.
pub open spec fn min_spec(s: Seq<u64>) -> u64 {
    min_prefix(s, s.len() as int)
}

/// No element of the sequence is NaN.
pub open spec fn no_nans(s: Seq<u64>) -> bool {
    forall|i: int| 0 <= i < s.len() ==> !f_is_nan(#[trigger] s[i])
}

/// Calculates the mean (average) of a slice of prices.
///
/// Requires a non-empty slice.
pub fn mean(prices: &[u64]) -> (r: u64)
    requires
        prices@.len() > 0,
    ensures
        r == mean_spec(prices@),
{
    let mut acc: u64 = F_ZERO;
    let mut i: usize = 0;
    while i < prices.len()
        invariant
            i <= prices@.len(),
            acc == sum_prefix(prices@, i as int),
        decreases prices@.len() - i,
    {
        acc = f_add(acc, prices[i]);
        i = i + 1;
    }
    let n = f_of_usize(prices.len());
    f_div(acc, n)
}

/// Calculates the maximum of a slice of prices.
///
/// Requires a non-empty slice without NaN values.
pub fn max(prices: &[u64]) -> (r: u64)
    requires
        prices@.len() > 0,
        no_nans(prices@),
    ensures
        r == max_spec(prices@),
{
    let mut cur: u64 = prices[0];
    let mut i: usize = 1;
    while i < prices.len()
        invariant
            1 <= i <= prices@.len(),
            prices@.len() > 0,
            cur == max_prefix(prices@, i as int),
        decreases prices@.len() - i,
    {
        cur = fmax2(cur, prices[i]);
        i = i + 1;
    }
    cur
}

/// Calculates the minimum of a slice of prices.
///
/// Requires a non-empty slice without NaN values.
pub fn min(prices: &[u64]) -> (r: u64)
    requires
        prices@.len() > 0,
        no_nans(prices@),
    ensures
        r == min_spec(prices@),
{
    let mut cur: u64 = prices[0];
    let mut i: usize = 1;
    while i < prices.len()
        invariant
            1 <= i <= prices@.len(),
            prices@.len() > 0,
            cur == min_prefix(prices@, i as int),
        decreases prices@.len() - i,
    {
        cur = fmin2(cur, prices[i]);
        i = i + 1;
    }
    cur
}

// ---------------------------------------------------------------------
// Median.
// ---------------------------------------------------------------------

/// The sequence with its NaN elements removed, order kept.
pub open spec fn keep_not_nan(s: Seq<u64>) -> Seq<u64>
    decreases s.len(),
{
    if s.len() == 0 {
        Seq::empty()
    } else {
        let rest = keep_not_nan(s.drop_last());
        if f_is_nan(s.last()) {
            rest
        } else {
            rest.push(s.last())
        }
    }
}

/// Insertion into a sorted sequence, scanning from the back while the
/// new element is strictly below.
pub open spec fn insert_sorted(s: Seq<u64>, x: u64) -> Seq<u64>
    decreases s.len(),
{
    if s.len() == 0 {
        seq![x]
    } else if f_lt(x, s.last()) {
        insert_sorted(s.drop_last(), x).push(s.last())
    } else {
        s.push(x)
    }
}

/// Insertion sort under the IEEE `<` order.
pub open spec fn sort_by_lt(s: Seq<u64>) -> Seq<u64>
    decreases s.len(),
{
    if s.len() == 0 {
        Seq::empty()
    } else {
        insert_sorted(sort_by_lt(s.drop_last()), s.last())
    }
}

/// The median: middle of the sorted non-NaN values, the mean of the two
/// middles for an even count, and the quiet-NaN sentinel when no value
/// is comparable.
pub open spec fn median_spec(s: Seq<u64>) -> u64 {
    let v = sort_by_lt(keep_not_nan(s));
    if v.len() == 0 {
        F_QNAN
    } else if v.len() % 2 == 0 {
        div_bits(add_bits(v[v.len() as int / 2 - 1], v[v.len() as int / 2]), F_TWO)
    } else {
        v[v.len() as int / 2]
    }
}

/// Calculates the median (middle value) of a slice of prices.
///
/// Orders the values and takes the middle one; for an even count the
/// average of the two middles.  NaN values are ignored; if none is
/// comparable the quiet-NaN sentinel comes back.  Requires a non-empty
/// slice.
pub fn median(prices: &[u64]) -> (r: u64)
    requires
        prices@.len() > 0,
    ensures
        r == median_spec(prices@),
{
    let mut vals: Vec<u64> = Vec::new();
    let mut i: usize = 0;
    while i < prices.len()
        invariant
            i <= prices@.len(),
            vals@ == sort_by_lt(keep_not_nan(prices@.take(i as int))),
        decreases prices@.len() - i,
    {
        let x = prices[i];
        proof {
            assert(prices@.take(i as int + 1).drop_last() =~= prices@.take(i as int));
            assert(prices@.take(i as int + 1).last() == prices@[i as int]);
        }
        if !f_is_nan_e(x) {
            let ghost before = vals@;
            proof {
                assert(before.take(before.len() as int) =~= before);
                assert(insert_sorted(before, x).add(before.skip(before.len() as int))
                    =~= insert_sorted(before, x));
            }
            let mut pos: usize = vals.len();
            while pos > 0 && cmp_lt(x, vals[pos - 1])
                invariant
                    pos <= vals@.len(),
                    vals@ == before,
                    insert_sorted(before, x) == insert_sorted(
                        before.take(pos as int),
                        x,
                    ).add(before.skip(pos as int)),
                decreases pos,
            {
                proof {
                    let p = pos as int;
                    assert(before.take(p).drop_last() =~= before.take(p - 1));
                    assert(before.take(p).last() == before[p - 1]);
                    assert(insert_sorted(before.take(p - 1), x).push(before[p - 1]).add(
                        before.skip(p),
                    ) =~= insert_sorted(before.take(p - 1), x).add(before.skip(p - 1)));
                }
                pos = pos - 1;
            }
            proof {
                if pos > 0 {
                    let p = pos as int;
                    assert(before.take(p).last() == before[p - 1]);
                    assert(insert_sorted(before.take(p), x) == before.take(p).push(x));
                }
                assert(insert_sorted(before, x) =~= before.take(pos as int).push(x).add(
                    before.skip(pos as int),
                ));
            }
            vals.insert(pos, x);
            proof {
                assert(vals@ =~= before.take(pos as int).push(x).add(before.skip(pos as int)));
                let k0 = keep_not_nan(prices@.take(i as int));
                let k1 = k0.push(x);
                assert(k1.drop_last() =~= k0);
                assert(k1.last() == x);
                assert(keep_not_nan(prices@.take(i as int + 1)) == k1);
                assert(sort_by_lt(k1) == insert_sorted(sort_by_lt(k0), x));
            }
        }
        i = i + 1;
    }
    proof {
        assert(prices@.take(prices@.len() as int) =~= prices@);
    }
    if vals.len() == 0 {
        return F_QNAN;
    }
    let mid = vals.len() / 2;
    if vals.len() % 2 == 0 {
        f_div(f_add(vals[mid - 1], vals[mid]), F_TWO)
    } else {
        vals[mid]
    }
}

// ---------------------------------------------------------------------
// Mode.
// ---------------------------------------------------------------------

/// The distinct rounded keys of the first `n` prices, in order of first
/// appearance.
pub open spec fn mode_keys(s: Seq<u64>, n: int) -> Seq<i64>
    decreases n,
{
    if n <= 0 {
        Seq::empty()
    } else {
        let ks = mode_keys(s, n - 1);
        let k = round_i64_spec(s[n - 1]);
        if ks.contains(k) {
            ks
        } else {
            ks.push(k)
        }
    }
}

/// How often the rounded key `k` appears among the first `n` prices.
pub open spec fn key_count(s: Seq<u64>, n: int, k: i64) -> int
    decreases n,
{
    if n <= 0 {
        0
    } else {
        key_count(s, n - 1, k) + if round_i64_spec(s[n - 1]) == k {
            1int
        } else {
            0int
        }
    }
}

/// The largest key count among the first `n` keys.
pub open spec fn max_count(s: Seq<u64>, ks: Seq<i64>, n: int) -> int
    decreases n,
{
    if n <= 0 {
        0
    } else {
        let c = key_count(s, s.len() as int, ks[n - 1]);
        let rest = max_count(s, ks, n - 1);
        if c > rest {
            c
        } else {
            rest
        }
    }
}

/// The sum of the first `n` keys whose count reaches `mc`.
pub open spec fn tied_sum(s: Seq<u64>, ks: Seq<i64>, n: int, mc: int) -> int
    decreases n,
{
    if n <= 0 {
        0
    } else {
        tied_sum(s, ks, n - 1, mc) + if key_count(s, s.len() as int, ks[n - 1]) == mc {
            ks[n - 1] as int
        } else {
            0int
        }
    }
}

/// How many of the first `n` keys reach the count `mc`.
pub open spec fn tied_cnt(s: Seq<u64>, ks: Seq<i64>, n: int, mc: int) -> int
    decreases n,
{
    if n <= 0 {
        0
    } else {
        tied_cnt(s, ks, n - 1, mc) + if key_count(s, s.len() as int, ks[n - 1]) == mc {
            1int
        } else {
            0int
        }
    }
}

/// The mode: prices are rounded to the nearest integer, the keys that
/// appear most often are averaged.
pub open spec fn mode_spec(s: Seq<u64>) -> u64 {
    let ks = mode_keys(s, s.len() as int);
    let mc = max_count(s, ks, ks.len() as int);
    let ts = tied_sum(s, ks, ks.len() as int, mc);
    let tc = tied_cnt(s, ks, ks.len() as int, mc);
    div_bits(of_i128_bits(ts as i128), of_u64_bits(tc as u64))
}

/// The big constant product bounding a tied-mode sum.
proof fn lemma_tied_sum_bound_const()
    by (bit_vector)
    ensures
        0xFFFF_FFFF_FFFF_FFFFu128 * 0x8000_0000_0000_0000u128
            == 0x7FFF_FFFF_FFFF_FFFF_8000_0000_0000_0000u128,
{
}

/// Counts how often a rounded key appears in the prices.
fn count_key(prices: &[u64], k: i64) -> (c: usize)
    ensures
        c as int == key_count(prices@, prices@.len() as int, k),
        c <= prices@.len(),
{
    let mut c: usize = 0;
    let mut i: usize = 0;
    while i < prices.len()
        invariant
            i <= prices@.len(),
            c as int == key_count(prices@, i as int, k),
            c <= i,
        decreases prices@.len() - i,
    {
        if f_round_i64(prices[i]) == k {
            c = c + 1;
        }
        i = i + 1;
    }
    c
}

/// Calculates the mode (most common price) of a slice of prices.
///
/// Rounds prices to the nearest integer for frequency counting; when
/// several rounded values tie, their average comes back.  Requires a
/// non-empty slice.
pub fn mode(prices: &[u64]) -> (r: u64)
    requires
        prices@.len() > 0,
    ensures
        r == mode_spec(prices@),
{
    let n = prices.len();
    let mut keys: Vec<i64> = Vec::new();
    let mut i: usize = 0;
    while i < n
        invariant
            i <= prices@.len(),
            n == prices@.len(),
            keys@ == mode_keys(prices@, i as int),
        decreases n - i,
    {
        let k = f_round_i64(prices[i]);
        let mut found = false;
        let mut j: usize = 0;
        while j < keys.len()
            invariant
                j <= keys@.len(),
                found <==> exists|t: int| 0 <= t < j && keys@[t] == k,
            decreases keys@.len() - j,
        {
            if keys[j] == k {
                found = true;
            }
            j = j + 1;
        }
        proof {
            assert(found <==> keys@.contains(k));
        }
        if !found {
            keys.push(k);
        }
        i = i + 1;
    }
    let ghost ks = keys@;
    let mut mc: usize = 0;
    let mut j: usize = 0;
    while j < keys.len()
        invariant
            j <= keys@.len(),
            keys@ == ks,
            n == prices@.len(),
            mc as int == max_count(prices@, ks, j as int),
        decreases keys@.len() - j,
    {
        let c = count_key(prices, keys[j]);
        if c > mc {
            mc = c;
        }
        j = j + 1;
    }
    let mut ts: i128 = 0;
    let mut tc: usize = 0;
    let mut j2: usize = 0;
    while j2 < keys.len()
        invariant
            j2 <= keys@.len(),
            keys@ == ks,
            n == prices@.len(),
            mc as int == max_count(prices@, ks, ks.len() as int),
            ts as int == tied_sum(prices@, ks, j2 as int, mc as int),
            tc as int == tied_cnt(prices@, ks, j2 as int, mc as int),
            -((j2 as int) * 0x8000_0000_0000_0000) <= ts as int
                <= (j2 as int) * 0x8000_0000_0000_0000,
            tc <= j2,
        decreases keys@.len() - j2,
    {
        let c = count_key(prices, keys[j2]);
        proof {
            lemma_tied_sum_bound_const();
            assert(((j2 as int) + 1) * 0x8000_0000_0000_0000 == (j2 as int)
                * 0x8000_0000_0000_0000 + 0x8000_0000_0000_0000) by (nonlinear_arith);
            assert(((j2 as int) + 1) * 0x8000_0000_0000_0000 <= 0xFFFF_FFFF_FFFF_FFFFint
                * 0x8000_0000_0000_0000) by (nonlinear_arith)
                requires
                    (j2 as int) + 1 <= 0xFFFF_FFFF_FFFF_FFFFint,
            ;
        }
        if c == mc {
            ts = ts + keys[j2] as i128;
            tc = tc + 1;
        }
        j2 = j2 + 1;
    }
    f_div(f_of_i128(ts), f_of_usize(tc))
}

} // verus!
