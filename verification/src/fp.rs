//! The numeric ground floor of the crate.
//!
//! Every price or statistic is the bit pattern of an IEEE-754
//! double-precision float, carried as a `u64`.  This module provides:
//!
//! * spec-level predicates over such bit patterns (`f_is_nan`, `f_lt`,
//!   `f_eq`, ...) together with verified executable comparisons, which
//!   implement the IEEE-754 ordering directly on the bits;
//! * the four rounded arithmetic operations and the two integer
//!   conversions, performed by a software implementation of IEEE-754
//!   arithmetic behind trusted wrappers whose results are named by
//!   uninterpreted spec functions;
//! * a fully verified square root (`f_sqrt`), correctly rounded to
//!   nearest-even, written here because square root never ties;
//! * a fully verified round-to-nearest-integer cast (`f_round_i64`),
//!   mirroring `f64::round` followed by a saturating cast.

use vstd::prelude::*;
use vstd::arithmetic::power2::{pow2, lemma_pow2_adds, lemma2_to64};

verus! {

/// Bits of `0.0`.
pub const F_ZERO: u64 = 0x0000_0000_0000_0000;
/// Bits of `1.0`.
pub const F_ONE: u64 = 0x3FF0_0000_0000_0000;
/// Bits of `2.0`.
pub const F_TWO: u64 = 0x4000_0000_0000_0000;
/// Bits of `100.0`.
pub const F_HUNDRED: u64 = 0x4059_0000_0000_0000;
/// Bits of the largest finite double, `f64::MAX`.
pub const F_MAX: u64 = 0x7FEF_FFFF_FFFF_FFFF;
/// Bits of `1e-10`, the guard against near-zero denominators.
pub const F_TENTH_NANO: u64 = 0x3DDB_7CDF_D9D7_BDBB;
/// Bits of `1e-7`, the acceleration-factor cap tolerance.
pub const F_TENTH_MICRO: u64 = 0x3E7A_D7F2_9ABC_AF48;
/// Bits of the default quiet NaN, the sentinel for undefined results.
pub const F_QNAN: u64 = 0x7FF8_0000_0000_0000;

/// The exponent field is all ones and the mantissa is not zero.
pub open spec fn f_is_nan(x: u64) -> bool {
    (x >> 52) & 0x7ff == 0x7ff && x & 0xf_ffff_ffff_ffff != 0
}

/// Positive or negative zero.
pub open spec fn f_is_zero(x: u64) -> bool {
    x & 0x7fff_ffff_ffff_ffff == 0
}

/// The IEEE-754 `<` relation on double bit patterns: false whenever an
/// operand is NaN, the two zeros are equal, otherwise sign first and
/// then magnitude (for which the bit patterns order monotonically).
pub open spec fn f_lt(a: u64, b: u64) -> bool {
    &&& !f_is_nan(a)
    &&& !f_is_nan(b)
    &&& !(f_is_zero(a) && f_is_zero(b))
    &&& if a >> 63 != b >> 63 {
        a >> 63 == 1
    } else if a >> 63 == 0 {
        a < b
    } else {
        b < a
    }
}

/// The IEEE-754 `==` relation: never true for NaN, true for the two
/// zeros, otherwise bit equality.
pub open spec fn f_eq(a: u64, b: u64) -> bool {
    &&& !f_is_nan(a)
    &&& !f_is_nan(b)
    &&& (a == b || (f_is_zero(a) && f_is_zero(b)))
}

/// The IEEE-754 `<=` relation.
pub open spec fn f_le(a: u64, b: u64) -> bool {
    f_lt(a, b) || f_eq(a, b)
}

/// The larger of two doubles, as `f64::max` computes it on non-NaN input.
pub open spec fn f_max2(a: u64, b: u64) -> u64 {
    if f_lt(a, b) {
        b
    } else {
        a
    }
}

/// The smaller of two doubles, as `f64::min` computes it on non-NaN input.
pub open spec fn f_min2(a: u64, b: u64) -> u64 {
    if f_lt(b, a) {
        b
    } else {
        a
    }
}

/// The absolute value: the sign bit cleared.
pub open spec fn f_abs_spec(x: u64) -> u64 {
    x & 0x7fff_ffff_ffff_ffff
}

pub fn f_is_nan_e(x: u64) -> (r: bool)
    ensures
        r == f_is_nan(x),
{
    (x >> 52) & 0x7ff == 0x7ff && x & 0xf_ffff_ffff_ffff != 0
}

pub fn cmp_lt(a: u64, b: u64) -> (r: bool)
    ensures
        r == f_lt(a, b),
{
    let a_nan = (a >> 52) & 0x7ff == 0x7ff && a & 0xf_ffff_ffff_ffff != 0;
    let b_nan = (b >> 52) & 0x7ff == 0x7ff && b & 0xf_ffff_ffff_ffff != 0;
    if a_nan || b_nan {
        return false;
    }
    if a & 0x7fff_ffff_ffff_ffff == 0 && b & 0x7fff_ffff_ffff_ffff == 0 {
        return false;
    }
    if a >> 63 != b >> 63 {
        a >> 63 == 1
    } else if a >> 63 == 0 {
        a < b
    } else {
        b < a
    }
}

pub fn cmp_eq(a: u64, b: u64) -> (r: bool)
    ensures
        r == f_eq(a, b),
{
    let a_nan = (a >> 52) & 0x7ff == 0x7ff && a & 0xf_ffff_ffff_ffff != 0;
    let b_nan = (b >> 52) & 0x7ff == 0x7ff && b & 0xf_ffff_ffff_ffff != 0;
    if a_nan || b_nan {
        return false;
    }
    a == b || (a & 0x7fff_ffff_ffff_ffff == 0 && b & 0x7fff_ffff_ffff_ffff == 0)
}

pub fn cmp_le(a: u64, b: u64) -> (r: bool)
    ensures
        r == f_le(a, b),
{
    cmp_lt(a, b) || cmp_eq(a, b)
}

pub fn fmax2(a: u64, b: u64) -> (r: u64)
    ensures
        r == f_max2(a, b),
{
    if cmp_lt(a, b) {
        b
    } else {
        a
    }
}

pub fn fmin2(a: u64, b: u64) -> (r: u64)
    ensures
        r == f_min2(a, b),
{
    if cmp_lt(b, a) {
        b
    } else {
        a
    }
}

pub fn f_abs(x: u64) -> (r: u64)
    ensures
        r == f_abs_spec(x),
{
    x & 0x7fff_ffff_ffff_ffff
}

/// On values that are not NaN, `f_lt` and `f_le` order totally:
/// exactly one of `a < b`, `a == b`, `b < a` holds.
pub proof fn lemma_f_order_total(a: u64, b: u64)
    by (bit_vector)
    requires
        !f_is_nan(a),
        !f_is_nan(b),
    ensures
        f_lt(a, b) || f_eq(a, b) || f_lt(b, a),
        f_lt(a, b) ==> !f_eq(a, b) && !f_lt(b, a),
        f_eq(a, b) ==> !f_lt(a, b) && !f_lt(b, a),
{
}

/// `f_le` is transitive, and a strict link keeps the result strict.
pub proof fn lemma_f_order_trans(a: u64, b: u64, c: u64)
    by (bit_vector)
    ensures
        f_le(a, b) && f_le(b, c) ==> f_le(a, c),
        f_le(a, b) && f_lt(b, c) ==> f_lt(a, c),
        f_lt(a, b) && f_le(b, c) ==> f_lt(a, c),
{
}

// ---------------------------------------------------------------------
// Trusted arithmetic: IEEE-754 double operations, round to nearest even.
// ---------------------------------------------------------------------

/// The bits of the IEEE-754 sum of two doubles given by their bits.
pub uninterp spec fn add_bits(a: u64, b: u64) -> u64;

/// The bits of the IEEE-754 difference of two doubles.
pub uninterp spec fn sub_bits(a: u64, b: u64) -> u64;

/// The bits of the IEEE-754 product of two doubles.
pub uninterp spec fn mul_bits(a: u64, b: u64) -> u64;

/// The bits of the IEEE-754 quotient of two doubles.
pub uninterp spec fn div_bits(a: u64, b: u64) -> u64;

/// The bits of the double nearest to an unsigned 64-bit integer.
pub uninterp spec fn of_u64_bits(n: u64) -> u64;

/// The bits of the double nearest to a signed 128-bit integer.
pub uninterp spec fn of_i128_bits(n: i128) -> u64;

// ---------------------------------------------------------------------
// Verified square root.
// ---------------------------------------------------------------------

/// `2^52`, the implicit leading bit of a normal mantissa.
pub const TWO52_U64: u64 = 0x10_0000_0000_0000;
/// `2^53`.
pub const TWO53_U64: u64 = 0x20_0000_0000_0000;
/// `2^104`, the lower bound of the normalized radicand.
pub const TWO104_U128: u128 = 0x100_0000_0000_0000_0000_0000_0000;

/// The integer square root: the unique `r` with `r² <= x < (r+1)²`.
pub open spec fn spec_isqrt(x: int) -> int {
    choose|r: int| 0 <= r && #[trigger] (r * r) <= x && x < (r + 1) * (r + 1)
}

/// The two constant squares that the square-root proofs need.
proof fn lemma_const_squares()
    by (bit_vector)
    ensures
        0x10_0000_0000_0000u128 * 0x10_0000_0000_0000u128
            == 0x100_0000_0000_0000_0000_0000_0000u128,
        0x20_0000_0000_0000u128 * 0x20_0000_0000_0000u128
            == 0x400_0000_0000_0000_0000_0000_0000u128,
{
}

proof fn lemma_sq_unique(x: int, a: int, b: int)
    by (nonlinear_arith)
    requires
        0 <= a,
        a * a <= x,
        x < (a + 1) * (a + 1),
        0 <= b,
        b * b <= x,
        x < (b + 1) * (b + 1),
    ensures
        a == b,
{
}

/// Doubling a positive value below `2^104` until it reaches `[2^104, 2^105)`:
/// the reached value and the number of doublings.
pub open spec fn norm2(x: int) -> (int, int)
    decreases 2 * (TWO104_U128 as int) - x,
    when 1 <= x
{
    if x >= TWO104_U128 as int {
        (x, 0)
    } else {
        let p = norm2(2 * x);
        (p.0, p.1 + 1)
    }
}

proof fn lemma_norm2(x: int)
    requires
        1 <= x < TWO104_U128 as int,
    ensures
        TWO104_U128 as int <= norm2(x).0 < 2 * (TWO104_U128 as int),
        norm2(x).1 >= 1,
        norm2(x).0 == x * pow2(norm2(x).1 as nat),
    decreases 2 * (TWO104_U128 as int) - x,
{
    lemma2_to64();
    if 2 * x >= TWO104_U128 as int {
        assert(norm2(2 * x) == (2 * x, 0int));
        assert(x * pow2(1) == 2 * x) by (nonlinear_arith)
            requires
                pow2(1) == 2,
        ;
    } else {
        lemma_norm2(2 * x);
        let c = norm2(2 * x).1;
        lemma_pow2_adds(1, c as nat);
        assert(x * pow2((c + 1) as nat) == (2 * x) * pow2(c as nat)) by (nonlinear_arith)
            requires
                c >= 1,
                pow2((c + 1) as nat) == pow2(1) * pow2(c as nat),
                pow2(1) == 2,
        ;
    }
}

proof fn lemma_pow2_104()
    ensures
        pow2(104) == TWO104_U128 as int,
        pow2(52) == TWO52_U64 as int,
{
    lemma2_to64();
    vstd::arithmetic::power2::lemma2_to64_rest();
    lemma_pow2_adds(52, 52);
    lemma_const_squares();
}

/// The count of doublings never exceeds 104 for a positive start value.
proof fn lemma_norm2_cnt(x: int)
    requires
        1 <= x < TWO104_U128 as int,
    ensures
        1 <= norm2(x).1 <= 104,
{
    lemma_norm2(x);
    lemma_pow2_104();
    let c = norm2(x).1;
    if c > 104 {
        if c > 105 {
            vstd::arithmetic::power2::lemma_pow2_strictly_increases(105, c as nat);
        }
        lemma_pow2_adds(104, 1);
        lemma2_to64();
        assert(x * pow2(c as nat) >= pow2(c as nat)) by (nonlinear_arith)
            requires
                x >= 1,
                pow2(c as nat) >= 0,
        ;
        assert(false);
    }
}

/// Binary search for the integer square root of a value below `2^106`.
fn isqrt106(x: u128) -> (r: u64)
    requires
        x < 0x400_0000_0000_0000_0000_0000_0000u128,
    ensures
        0 <= r as int,
        (r as int) * (r as int) <= x as int,
        (x as int) < (r as int + 1) * (r as int + 1),
        r < TWO53_U64,
{
    proof {
        lemma_const_squares();
    }
    let mut lo: u128 = 0;
    let mut hi: u128 = 0x20_0000_0000_0000;
    while hi - lo > 1
        invariant
            lo < hi <= 0x20_0000_0000_0000u128,
            (lo as int) * (lo as int) <= x as int,
            (x as int) < (hi as int) * (hi as int),
        decreases hi - lo,
    {
        let mid = lo + (hi - lo) / 2;
        proof {
            lemma_const_squares();
            assert((mid as int) * (mid as int) <= 0x20_0000_0000_0000int * 0x20_0000_0000_0000int)
                by (nonlinear_arith)
                requires
                    0 <= mid as int,
                    (mid as int) <= 0x20_0000_0000_0000,
            ;
        }
        if mid * mid <= x {
            lo = mid;
        } else {
            hi = mid;
        }
    }
    lo as u64
}

/// The bits of the correctly rounded square root of a positive, finite,
/// nonzero double given by its bits: the mantissa (with its hidden bit)
/// is doubled up into `[2^104, 2^106)` at an even exponent, its integer
/// square root is taken, and one rounding step decides between it and
/// its successor; square roots never tie, so nearest-even needs no
/// evenness test.
pub open spec fn sqrt_pos_bits(x: u64) -> u64 {
    let e = (x >> 52) & 0x7ff;
    let m = x & 0xf_ffff_ffff_ffff;
    let mm = if e == 0 {
        m
    } else {
        (m + 0x10_0000_0000_0000) as u64
    };
    let ep: u64 = if e == 0 {
        1076
    } else {
        (e + 1075) as u64
    };
    let p = norm2(mm as int);
    let xx0 = p.0;
    let s0 = p.1;
    let odd = (ep as int + s0) % 2 == 1;
    let xx = if odd {
        2 * xx0
    } else {
        xx0
    };
    let s = if odd {
        s0 + 1
    } else {
        s0
    };
    let t = spec_isqrt(xx);
    let r = if 4 * xx < (2 * t + 1) * (2 * t + 1) {
        t
    } else {
        t + 1
    };
    let r2 = if r == TWO53_U64 as int {
        TWO52_U64 as int
    } else {
        r
    };
    let eb = if r == TWO53_U64 as int {
        (ep as int - s) / 2 + 1
    } else {
        (ep as int - s) / 2
    };
    (eb * TWO52_U64 as int + (r2 - TWO52_U64 as int)) as u64
}

/// The bits of the square root of any double: NaN quieted, zeros kept,
/// negative values and negative infinity give the default quiet NaN,
/// positive infinity is kept, positive finite values are rounded to
/// nearest.
pub open spec fn sqrt_bits(x: u64) -> u64 {
    if f_is_nan(x) {
        x | 0x8_0000_0000_0000
    } else if f_is_zero(x) {
        x
    } else if x >> 63 == 1 {
        0xFFF8_0000_0000_0000u64
    } else if (x >> 52) & 0x7ff == 0x7ff {
        x
    } else {
        sqrt_pos_bits(x)
    }
}

/// The correctly rounded IEEE-754 square root, computed with integers.
pub fn f_sqrt(x: u64) -> (r: u64)
    ensures
        r == sqrt_bits(x),
{
    let e = (x >> 52) & 0x7ff;
    let m = x & 0xf_ffff_ffff_ffff;
    if e == 0x7ff && m != 0 {
        return x | 0x8_0000_0000_0000;
    }
    if x & 0x7fff_ffff_ffff_ffff == 0 {
        return x;
    }
    if x >> 63 == 1 {
        return 0xFFF8_0000_0000_0000u64;
    }
    if e == 0x7ff {
        return x;
    }
    proof {
        assert(m <= 0xf_ffff_ffff_ffff && e <= 0x7ff && (e != 0 || m != 0)) by (bit_vector)
            requires
                e == (x >> 52) & 0x7ff,
                m == x & 0xf_ffff_ffff_ffff,
                x & 0x7fff_ffff_ffff_ffff != 0,
                x >> 63 != 1,
        ;
    }
    let mm: u64 = if e == 0 {
        m
    } else {
        m + 0x10_0000_0000_0000
    };
    let ep: u64 = if e == 0 {
        1076
    } else {
        e + 1075
    };
    proof {
        lemma_norm2(mm as int);
        lemma_norm2_cnt(mm as int);
    }
    let ghost p = norm2(mm as int);
    let mut xx: u128 = mm as u128;
    let mut s: u64 = 0;
    while xx < 0x100_0000_0000_0000_0000_0000_0000
        invariant
            1 <= xx,
            xx as int <= p.0,
            norm2(xx as int).0 == p.0,
            s as int + norm2(xx as int).1 == p.1,
            1 <= p.1 <= 104,
            p.0 < 2 * (TWO104_U128 as int),
            norm2(xx as int).1 >= 0,
        decreases 2 * (TWO104_U128 as int) - xx as int,
    {
        proof {
            assert(norm2(xx as int) == (norm2(2 * (xx as int)).0, norm2(2 * (xx as int)).1 + 1));
            if 2 * (xx as int) < TWO104_U128 as int {
                lemma_norm2(2 * (xx as int));
            } else {
                assert(norm2(2 * (xx as int)) == (2 * (xx as int), 0int));
            }
        }
        xx = xx * 2;
        s = s + 1;
    }
    proof {
        assert(norm2(xx as int) == (xx as int, 0int));
        assert(xx as int == p.0 && s as int == p.1);
    }
    // parity adjustment: make the exponent of the radicand even
    let odd = (ep + s) % 2 == 1;
    if odd {
        proof {
            assert(xx as int * 2 <= 4 * (TWO104_U128 as int));
        }
        xx = xx * 2;
        s = s + 1;
    }
    let t = isqrt106(xx);
    proof {
        let ti = t as int;
        let xi = xx as int;
        assert(0 <= ti && ti * ti <= xi && xi < (ti + 1) * (ti + 1));
        lemma_sq_unique(xi, ti, spec_isqrt(xi));
    }
    // round to nearest: the remainder exceeds t exactly when the true root
    // is above the midpoint; square roots of binary inputs never tie.
    let rem: u128 = xx - (t as u128) * (t as u128);
    let round_up = rem > t as u128;
    proof {
        let ti = t as int;
        let xi = xx as int;
        assert((xi - ti * ti > ti) == !(4 * xi < (2 * ti + 1) * (2 * ti + 1))) by (nonlinear_arith)
            requires
                0 <= ti,
                ti * ti <= xi,
        ;
    }
    let r: u64 = if round_up {
        t + 1
    } else {
        t
    };
    proof {
        lemma_const_squares();
        assert((t as int + 1) * (t as int + 1) > TWO104_U128 as int ==> t as int + 1
            > TWO52_U64 as int) by (nonlinear_arith)
            requires
                0x10_0000_0000_0000u128 * 0x10_0000_0000_0000u128
                    == 0x100_0000_0000_0000_0000_0000_0000u128,
                TWO52_U64 == 0x10_0000_0000_0000u64,
                TWO104_U128 == 0x100_0000_0000_0000_0000_0000_0000u128,
                0 <= t as int,
        ;
    }
    let r2: u64 = if r == 0x20_0000_0000_0000 {
        0x10_0000_0000_0000
    } else {
        r
    };
    let eb: u64 = if r == 0x20_0000_0000_0000 {
        (ep - s) / 2 + 1
    } else {
        (ep - s) / 2
    };
    proof {
        assert((ep as int - s as int) / 2 == (ep - s) as int / 2);
    }
    eb * 0x10_0000_0000_0000 + (r2 - 0x10_0000_0000_0000)
}

// ---------------------------------------------------------------------
// Verified round-to-nearest-integer cast.
// ---------------------------------------------------------------------

/// The value of `f64::round` followed by `as i64`: round to the nearest
/// integer, ties away from zero, NaN to zero, out-of-range magnitudes
/// saturated.
pub open spec fn round_i64_spec(x: u64) -> i64 {
    if f_is_nan(x) {
        0
    } else {
        let neg = x >> 63 == 1;
        let e = (x >> 52) & 0x7ff;
        let m = x & 0xf_ffff_ffff_ffff;
        if e >= 1086 {
            if neg {
                i64::MIN
            } else {
                i64::MAX
            }
        } else {
            let mag: u64 = if e < 1022 {
                0
            } else if e == 1022 {
                1
            } else if e <= 1074 {
                let full = (m + 0x10_0000_0000_0000) as u64;
                let sh = (1075 - e) as u64;
                let ip = full >> sh;
                let half = 1u64 << (sh - 1) as u64;
                let frac = full & (((1u64 << sh) - 1) as u64);
                if frac >= half {
                    (ip + 1) as u64
                } else {
                    ip
                }
            } else {
                (((m + 0x10_0000_0000_0000) as u64) << ((e - 1075) as u64)) as u64
            };
            if neg {
                (0 - mag as i64) as i64
            } else {
                mag as i64
            }
        }
    }
}

/// Rounds a double to the nearest integer, ties away from zero, and
/// saturates into `i64`, with integer arithmetic on the bits.
pub fn f_round_i64(x: u64) -> (r: i64)
    ensures
        r == round_i64_spec(x),
{
    let e = (x >> 52) & 0x7ff;
    let m = x & 0xf_ffff_ffff_ffff;
    if e == 0x7ff && m != 0 {
        return 0;
    }
    let neg = x >> 63 == 1;
    if e >= 1086 {
        return if neg {
            i64::MIN
        } else {
            i64::MAX
        };
    }
    proof {
        assert(m <= 0xf_ffff_ffff_ffff && e <= 0x7ff) by (bit_vector)
            requires
                e == (x >> 52) & 0x7ff,
                m == x & 0xf_ffff_ffff_ffff,
        ;
    }
    let mag: u64 = if e < 1022 {
        0
    } else if e == 1022 {
        1
    } else if e <= 1074 {
        let full = m + 0x10_0000_0000_0000;
        let sh = 1075 - e;
        let ip = full >> sh;
        let half = 1u64 << (sh - 1);
        proof {
            assert(1u64 << sh >= 1) by (bit_vector)
                requires
                    sh < 64u64,
            ;
        }
        let frac = full & ((1u64 << sh) - 1);
        proof {
            assert(full >> sh < 0x20_0000_0000_0000) by (bit_vector)
                requires
                    full < 0x20_0000_0000_0000u64,
                    1 <= sh < 64,
            ;
        }
        if frac >= half {
            ip + 1
        } else {
            ip
        }
    } else {
        let full = m + 0x10_0000_0000_0000;
        let sh = e - 1075;
        proof {
            assert(full << sh < 0x8000_0000_0000_0000) by (bit_vector)
                requires
                    full < 0x20_0000_0000_0000u64,
                    sh <= 10u64,
            ;
        }
        full << sh
    };
    if neg {
        0 - mag as i64
    } else {
        mag as i64
    }
}

/// Relies on rustc_apfloat::ieee::Double::add_r: IEEE-754 double
/// addition, rounded to nearest even; the result depends on the
/// operand bits alone.
#[verifier::external_body]
pub fn f_add(a: u64, b: u64) -> (r: u64)
    ensures
        r == add_bits(a, b),
{
    let x = <rustc_apfloat::ieee::Double as rustc_apfloat::Float>::from_bits(a as u128);
    let y = <rustc_apfloat::ieee::Double as rustc_apfloat::Float>::from_bits(b as u128);
    let s = rustc_apfloat::Float::add_r(x, y, rustc_apfloat::Round::NearestTiesToEven);
    rustc_apfloat::Float::to_bits(s.value) as u64
}

/// Relies on rustc_apfloat::ieee::Double::sub_r: IEEE-754 double
/// subtraction, rounded to nearest even; the result depends on the
/// operand bits alone.
#[verifier::external_body]
pub fn f_sub(a: u64, b: u64) -> (r: u64)
    ensures
        r == sub_bits(a, b),
{
    let x = <rustc_apfloat::ieee::Double as rustc_apfloat::Float>::from_bits(a as u128);
    let y = <rustc_apfloat::ieee::Double as rustc_apfloat::Float>::from_bits(b as u128);
    let s = rustc_apfloat::Float::sub_r(x, y, rustc_apfloat::Round::NearestTiesToEven);
    rustc_apfloat::Float::to_bits(s.value) as u64
}

/// Relies on rustc_apfloat::ieee::Double::mul_r: IEEE-754 double
/// multiplication, rounded to nearest even; the result depends on the
/// operand bits alone.
#[verifier::external_body]
pub fn f_mul(a: u64, b: u64) -> (r: u64)
    ensures
        r == mul_bits(a, b),
{
    let x = <rustc_apfloat::ieee::Double as rustc_apfloat::Float>::from_bits(a as u128);
    let y = <rustc_apfloat::ieee::Double as rustc_apfloat::Float>::from_bits(b as u128);
    let s = rustc_apfloat::Float::mul_r(x, y, rustc_apfloat::Round::NearestTiesToEven);
    rustc_apfloat::Float::to_bits(s.value) as u64
}

/// Relies on rustc_apfloat::ieee::Double::div_r: IEEE-754 double
/// division, rounded to nearest even; the result depends on the
/// operand bits alone.
#[verifier::external_body]
pub fn f_div(a: u64, b: u64) -> (r: u64)
    ensures
        r == div_bits(a, b),
{
    let x = <rustc_apfloat::ieee::Double as rustc_apfloat::Float>::from_bits(a as u128);
    let y = <rustc_apfloat::ieee::Double as rustc_apfloat::Float>::from_bits(b as u128);
    let s = rustc_apfloat::Float::div_r(x, y, rustc_apfloat::Round::NearestTiesToEven);
    rustc_apfloat::Float::to_bits(s.value) as u64
}

/// Relies on rustc_apfloat::ieee::Double::from_u128_r: conversion of an
/// unsigned integer to the nearest double; the result depends on the
/// argument alone.
#[verifier::external_body]
pub fn f_of_usize(n: usize) -> (r: u64)
    ensures
        r == of_u64_bits(n as u64),
{
    let s = <rustc_apfloat::ieee::Double as rustc_apfloat::Float>::from_u128_r(
        n as u128,
        rustc_apfloat::Round::NearestTiesToEven,
    );
    rustc_apfloat::Float::to_bits(s.value) as u64
}

/// Relies on rustc_apfloat::ieee::Double::from_i128_r: conversion of a
/// signed integer to the nearest double; the result depends on the
/// argument alone.
#[verifier::external_body]
pub fn f_of_i128(n: i128) -> (r: u64)
    ensures
        r == of_i128_bits(n),
{
    let s = <rustc_apfloat::ieee::Double as rustc_apfloat::Float>::from_i128_r(
        n,
        rustc_apfloat::Round::NearestTiesToEven,
    );
    rustc_apfloat::Float::to_bits(s.value) as u64
}

} // verus!
