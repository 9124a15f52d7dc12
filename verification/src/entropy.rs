//! Shannon entropy of a byte slice, in thousandths of a bit per byte
//! ("millibits"), computed exactly in fixed-point integer arithmetic.
//!
//! The score is the classical `-sum(p_v * log2(p_v))` over the 256 byte
//! values, evaluated with a binary-logarithm approximation that carries 16
//! fractional bits, then scaled to millibits.  The result lies near 0 for
//! constant data and near 8000 for uniformly distributed data.

use vstd::prelude::*;
use vstd::arithmetic::power2::{lemma2_to64, lemma_pow2_adds, lemma_pow2_pos, pow2};
use vstd::arithmetic::div_mod::{
    lemma_div_is_ordered,
    lemma_div_multiples_vanish,
    lemma_multiply_divide_lt,
};
use vstd::arithmetic::mul::{lemma_mul_inequality, lemma_mul_strict_inequality};

verus! {

/// The fixed-point scale of the logarithm: 2 to the 16th.
pub const LOG_ONE: u64 = 65536;

/// The integer part of the binary logarithm.
pub open spec fn spec_log2_floor(x: nat) -> nat
    decreases x,
{
    if x < 2 {
        0
    } else {
        1 + spec_log2_floor(x / 2)
    }
}

/// The fundamental characterization of `spec_log2_floor`: `x` lies between
/// the powers of two with exponents `spec_log2_floor(x)` and one more.
pub proof fn lemma_log2_floor_props(x: nat)
    requires
        x >= 1,
    ensures
        pow2(spec_log2_floor(x)) <= x,
        x < pow2(spec_log2_floor(x) + 1),
    decreases x,
{
    lemma_pow2_pos(spec_log2_floor(x));
    if x < 2 {
        assert(pow2(0) == 1 && pow2(1) == 2) by {
            lemma2_to64();
        }
    } else {
        lemma_log2_floor_props(x / 2);
        let e = spec_log2_floor(x / 2);
        assert(pow2(e + 1) == 2 * pow2(e)) by {
            lemma_pow2_adds(e, 1);
            lemma2_to64();
        }
        assert(pow2(e + 2) == 2 * pow2(e + 1)) by {
            lemma_pow2_adds(e + 1, 1);
            lemma2_to64();
        }
    }
}

/// The integer binary logarithm is determined by the enclosing powers of two.
pub proof fn lemma_log2_floor_unique(x: nat, e: nat)
    requires
        pow2(e) <= x,
        x < pow2(e + 1),
    ensures
        spec_log2_floor(x) == e,
    decreases e,
{
    lemma_pow2_pos(e);
    if e == 0 {
        assert(pow2(0) == 1 && pow2(1) == 2) by {
            lemma2_to64();
        }
    } else {
        assert(pow2(e) == 2 * pow2((e - 1) as nat)) by {
            lemma_pow2_adds((e - 1) as nat, 1);
            lemma2_to64();
        }
        assert(pow2(e + 1) == 2 * pow2(e)) by {
            lemma_pow2_adds(e, 1);
            lemma2_to64();
        }
        lemma_pow2_pos((e - 1) as nat);
        assert(pow2((e - 1) as nat) <= x / 2 && x / 2 < pow2(e));
        lemma_log2_floor_unique(x / 2, (e - 1) as nat);
    }
}

/// The integer binary logarithm is monotone.
pub proof fn lemma_log2_floor_mono(a: nat, b: nat)
    requires
        1 <= a <= b,
    ensures
        spec_log2_floor(a) <= spec_log2_floor(b),
    decreases a,
{
    if a >= 2 {
        lemma_log2_floor_mono(a / 2, b / 2);
    }
}

/// Scaling by a power of two shifts the integer binary logarithm.
pub proof fn lemma_log2_floor_shift(x: nat, j: nat)
    requires
        x >= 1,
    ensures
        spec_log2_floor(x * pow2(j)) == j + spec_log2_floor(x),
    decreases j,
{
    if j == 0 {
        assert(pow2(0) == 1) by {
            lemma2_to64();
        }
    } else {
        lemma_log2_floor_shift(x, (j - 1) as nat);
        assert(pow2(j) == pow2((j - 1) as nat) * 2) by {
            lemma_pow2_adds((j - 1) as nat, 1);
            lemma2_to64();
        }
        lemma_pow2_pos((j - 1) as nat);
        let y = x * pow2((j - 1) as nat);
        assert(y >= 1) by {
            lemma_mul_inequality(1, x as int, pow2((j - 1) as nat) as int);
        }
        assert(x * pow2(j) == y * 2) by {
            vstd::arithmetic::mul::lemma_mul_is_associative(
                x as int,
                pow2((j - 1) as nat) as int,
                2,
            );
        }
        assert(spec_log2_floor(y * 2) == 1 + spec_log2_floor(y * 2 / 2));
        assert(y * 2 / 2 == y);
    }
}

/// The normalized mantissa of `x`: `x` scaled so that its leading binary
/// digit sits at position 63.
pub open spec fn spec_mantissa(x: nat) -> nat
    recommends
        1 <= x < pow2(64),
{
    x * pow2((63 - spec_log2_floor(x)) as nat)
}

/// One step of the fractional-bit iteration: square the mantissa, drop back
/// to 64 bits, and note whether the square crossed the next power of two.
pub open spec fn spec_frac_step_m(m: nat) -> nat {
    if m * m / pow2(63) >= pow2(64) {
        m * m / pow2(63) / 2
    } else {
        m * m / pow2(63)
    }
}

/// Whether one fractional-bit step emits a one bit.
pub open spec fn spec_frac_step_bit(m: nat) -> nat {
    if m * m / pow2(63) >= pow2(64) {
        1
    } else {
        0
    }
}

/// The mantissa after `k` fractional-bit steps.
pub open spec fn spec_frac_m(m0: nat, k: nat) -> nat
    decreases k,
{
    if k == 0 {
        m0
    } else {
        spec_frac_step_m(spec_frac_m(m0, (k - 1) as nat))
    }
}

/// The fractional bits accumulated after `k` steps, most significant first.
pub open spec fn spec_frac_r(m0: nat, k: nat) -> nat
    decreases k,
{
    if k == 0 {
        0
    } else {
        2 * spec_frac_r(m0, (k - 1) as nat) + spec_frac_step_bit(spec_frac_m(m0, (k - 1) as nat))
    }
}

/// The 16 fractional bits of the binary logarithm of a normalized mantissa.
pub open spec fn spec_frac16(m0: nat) -> nat {
    spec_frac_r(m0, 16)
}

/// The fixed-point binary logarithm: integer part scaled by `LOG_ONE` plus
/// 16 fractional bits.
pub open spec fn spec_log2_fp(x: nat) -> nat
    recommends
        1 <= x < pow2(64),
{
    spec_log2_floor(x) * (LOG_ONE as nat) + spec_frac16(spec_mantissa(x))
}

/// A normalized mantissa stays normalized across fractional-bit steps.
proof fn lemma_frac_step_in_range(m: nat)
    requires
        pow2(63) <= m < pow2(64),
    ensures
        pow2(63) <= spec_frac_step_m(m) < pow2(64),
{
    lemma_pow2_pos(63);
    lemma_pow2_pos(64);
    lemma_pow2_adds(63, 63);
    lemma_pow2_adds(64, 64);
    lemma_pow2_adds(64, 63);
    assert(m * m >= pow2(63) * pow2(63)) by {
        lemma_mul_inequality(pow2(63) as int, m as int, m as int);
        lemma_mul_inequality(pow2(63) as int, m as int, pow2(63) as int);
        vstd::arithmetic::mul::lemma_mul_is_commutative(m as int, pow2(63) as int);
    }
    assert(m * m < pow2(64) * pow2(64)) by {
        lemma_mul_strict_inequality(m as int, pow2(64) as int, m as int);
        lemma_mul_inequality(m as int, pow2(64) as int, pow2(64) as int);
        vstd::arithmetic::mul::lemma_mul_is_commutative(m as int, pow2(64) as int);
    }
    let sq = m * m / pow2(63);
    assert(sq >= pow2(63)) by {
        lemma_div_is_ordered(pow2(126) as int, (m * m) as int, pow2(63) as int);
        lemma_div_multiples_vanish(pow2(63) as int, pow2(63) as int);
    }
    assert(sq < pow2(65)) by {
        lemma_pow2_adds(63, 65);
        lemma_multiply_divide_lt(
            (m * m) as int,
            pow2(63) as int,
            pow2(65) as int,
        );
    }
    lemma_pow2_adds(63, 1);
    lemma_pow2_adds(64, 1);
    lemma2_to64();
    if sq >= pow2(64) {
        assert(sq / 2 >= pow2(63)) by {
            lemma_div_is_ordered((2 * pow2(63)) as int, sq as int, 2);
            lemma_div_multiples_vanish(pow2(63) as int, 2);
        }
        assert(sq / 2 < pow2(64)) by {
            lemma_multiply_divide_lt(sq as int, 2, pow2(64) as int);
        }
    }
}

/// A normalized mantissa stays normalized across any number of steps.
proof fn lemma_frac_m_in_range(m0: nat, k: nat)
    requires
        pow2(63) <= m0 < pow2(64),
    ensures
        pow2(63) <= spec_frac_m(m0, k) < pow2(64),
    decreases k,
{
    if k > 0 {
        lemma_frac_m_in_range(m0, (k - 1) as nat);
        lemma_frac_step_in_range(spec_frac_m(m0, (k - 1) as nat));
    }
}

/// After `k` steps the accumulated fractional bits stay below 2 to the `k`.
proof fn lemma_frac_r_bound(m0: nat, k: nat)
    ensures
        spec_frac_r(m0, k) < pow2(k),
    decreases k,
{
    lemma_pow2_pos(k);
    if k == 0 {
        assert(pow2(0) == 1) by {
            lemma2_to64();
        }
    } else {
        lemma_frac_r_bound(m0, (k - 1) as nat);
        assert(pow2(k) == 2 * pow2((k - 1) as nat)) by {
            lemma_pow2_adds((k - 1) as nat, 1);
            lemma2_to64();
        }
    }
}

/// The fractional bits are monotone in the mantissa: a larger mantissa never
/// yields smaller fractional bits.
proof fn lemma_frac_r_mono(m1: nat, m2: nat, k: nat)
    requires
        m1 <= m2,
    ensures
        spec_frac_m(m1, k) <= spec_frac_m(m2, k) && spec_frac_r(m1, k) == spec_frac_r(m2, k)
            || spec_frac_r(m1, k) < spec_frac_r(m2, k),
    decreases k,
{
    if k > 0 {
        lemma_frac_r_mono(m1, m2, (k - 1) as nat);
        let a = spec_frac_m(m1, (k - 1) as nat);
        let b = spec_frac_m(m2, (k - 1) as nat);
        let ra = spec_frac_r(m1, (k - 1) as nat);
        let rb = spec_frac_r(m2, (k - 1) as nat);
        if a <= b && ra == rb {
            lemma_pow2_pos(63);
            assert(a * a <= b * b) by {
                lemma_mul_inequality(a as int, b as int, a as int);
                lemma_mul_inequality(a as int, b as int, b as int);
                vstd::arithmetic::mul::lemma_mul_is_commutative(a as int, b as int);
            }
            assert(a * a / pow2(63) <= b * b / pow2(63)) by {
                lemma_div_is_ordered((a * a) as int, (b * b) as int, pow2(63) as int);
            }
            let sa = a * a / pow2(63);
            let sb = b * b / pow2(63);
            if sa >= pow2(64) {
                assert(sa / 2 <= sb / 2) by {
                    lemma_div_is_ordered(sa as int, sb as int, 2);
                }
            } else if sb >= pow2(64) {
                assert(spec_frac_r(m1, k) < spec_frac_r(m2, k));
            } else {
                assert(spec_frac_m(m1, k) <= spec_frac_m(m2, k));
            }
        }
    }
}

/// The fixed-point binary logarithm is monotone on the 64-bit range.
pub proof fn lemma_log2_fp_mono(a: nat, b: nat)
    requires
        1 <= a <= b < pow2(64),
    ensures
        spec_log2_fp(a) <= spec_log2_fp(b),
{
    let ea = spec_log2_floor(a);
    let eb = spec_log2_floor(b);
    lemma_log2_floor_mono(a, b);
    lemma_log2_floor_props(a);
    lemma_log2_floor_props(b);
    assert(ea <= 63 && eb <= 63) by {
        lemma_log2_range_bound(a);
        lemma_log2_range_bound(b);
    }
    lemma_mantissa_in_range(a);
    lemma_mantissa_in_range(b);
    if ea == eb {
        assert(spec_mantissa(a) <= spec_mantissa(b)) by {
            lemma_mul_inequality(a as int, b as int, pow2((63 - ea) as nat) as int);
        }
        lemma_frac_r_mono(spec_mantissa(a), spec_mantissa(b), 16);
    } else {
        assert(spec_frac16(spec_mantissa(a)) < 65536) by {
            lemma_frac_r_bound(spec_mantissa(a), 16);
            lemma2_to64();
        }
        assert(ea * 65536 + 65536 <= eb * 65536) by (nonlinear_arith)
            requires
                ea < eb,
        ;
    }
}

/// The integer binary logarithm of a 64-bit value is at most 63.
pub proof fn lemma_log2_range_bound(x: nat)
    requires
        1 <= x < pow2(64),
    ensures
        spec_log2_floor(x) <= 63,
{
    lemma_log2_floor_props(x);
    if spec_log2_floor(x) > 63 {
        assert(pow2(64) <= pow2(spec_log2_floor(x))) by {
            if spec_log2_floor(x) > 64 {
                vstd::arithmetic::power2::lemma_pow2_strictly_increases(
                    64,
                    spec_log2_floor(x),
                );
            }
        }
    }
}

/// The normalized mantissa of a 64-bit value occupies exactly 64 bits.
pub proof fn lemma_mantissa_in_range(x: nat)
    requires
        1 <= x < pow2(64),
    ensures
        pow2(63) <= spec_mantissa(x) < pow2(64),
{
    let e = spec_log2_floor(x);
    lemma_log2_range_bound(x);
    lemma_log2_floor_props(x);
    let j = (63 - e) as nat;
    assert(pow2(e) * pow2(j) == pow2(63)) by {
        lemma_pow2_adds(e, j);
    }
    assert(pow2(e + 1) * pow2(j) == pow2(64)) by {
        lemma_pow2_adds(e + 1, j);
    }
    lemma_pow2_pos(j);
    assert(pow2(e) * pow2(j) <= x * pow2(j)) by {
        lemma_mul_inequality(pow2(e) as int, x as int, pow2(j) as int);
    }
    assert(x * pow2(j) < pow2(e + 1) * pow2(j)) by {
        lemma_mul_strict_inequality(x as int, pow2(e + 1) as int, pow2(j) as int);
    }
}

/// Scaling by a power of two adds a whole number to the fixed-point binary
/// logarithm: the fractional bits do not change.
pub proof fn lemma_log2_fp_shift(x: nat, j: nat)
    requires
        x >= 1,
        x * pow2(j) < pow2(64),
    ensures
        spec_log2_fp(x * pow2(j)) == j * 65536 + spec_log2_fp(x),
{
    let e = spec_log2_floor(x);
    lemma_log2_floor_shift(x, j);
    lemma_pow2_pos(j);
    assert(x <= x * pow2(j)) by {
        lemma_mul_inequality(1, pow2(j) as int, x as int);
        vstd::arithmetic::mul::lemma_mul_is_commutative(x as int, pow2(j) as int);
    }
    lemma_log2_range_bound(x * pow2(j));
    assert(spec_mantissa(x * pow2(j)) == spec_mantissa(x)) by {
        let ej = spec_log2_floor(x * pow2(j));
        assert(ej == j + e);
        assert((x * pow2(j)) * pow2((63 - ej) as nat) == x * (pow2(j) * pow2((63 - ej) as nat)))
            by {
            vstd::arithmetic::mul::lemma_mul_is_associative(
                x as int,
                pow2(j) as int,
                pow2((63 - ej) as nat) as int,
            );
        }
        assert(pow2(j) * pow2((63 - ej) as nat) == pow2((63 - e) as nat)) by {
            lemma_pow2_adds(j, (63 - ej) as nat);
        }
    }
    assert((j + e) * 65536 == j * 65536 + e * 65536) by (nonlinear_arith);
}

/// The integer part of the binary logarithm of `x`, for positive `x`.
pub fn log2_floor(x: u64) -> (r: u64)
    requires
        x >= 1,
    ensures
        r == spec_log2_floor(x as nat),
        r <= 63,
{
    let mut m: u64 = x;
    let mut r: u64 = 0;
    proof {
        lemma2_to64();
        lemma_log2_range_bound(x as nat);
    }
    while m >= 2
        invariant
            m >= 1,
            spec_log2_floor(x as nat) == r + spec_log2_floor(m as nat),
            r <= spec_log2_floor(x as nat),
            spec_log2_floor(x as nat) <= 63,
        decreases m,
    {
        m = m / 2;
        r = r + 1;
    }
    r
}

/// The normalized mantissa of `x`: `x` doubled until its leading binary
/// digit sits at position 63.
pub fn mantissa(x: u64) -> (r: u64)
    requires
        x >= 1,
    ensures
        r == spec_mantissa(x as nat),
{
    let mut m: u64 = x;
    let ghost mut j: nat = 0;
    proof {
        lemma2_to64();
        assert(m == x * pow2(0));
    }
    while m < 0x8000_0000_0000_0000u64
        invariant
            m == x as nat * pow2(j),
            m >= 1,
            x >= 1,
        decreases u64::MAX - m,
    {
        proof {
            lemma2_to64();
            assert(x as nat * pow2(j + 1) == (x as nat * pow2(j)) * 2) by {
                lemma_pow2_adds(j, 1);
                vstd::arithmetic::mul::lemma_mul_is_associative(x as int, pow2(j) as int, 2);
            }
        }
        m = m * 2;
        proof {
            j = j + 1;
        }
    }
    proof {
        lemma2_to64();
        vstd::arithmetic::power2::lemma2_to64_rest();
        lemma_log2_floor_shift(x as nat, j);
        lemma_log2_floor_unique(m as nat, 63);
        assert(spec_log2_floor(x as nat) + j == 63);
    }
    m
}

/// The 16 fractional bits of the binary logarithm of a normalized mantissa,
/// by repeated squaring.
pub fn frac16(m0: u64) -> (r: u64)
    requires
        pow2(63) <= m0 as nat,
    ensures
        r == spec_frac16(m0 as nat),
        r < 65536,
{
    let mut m: u64 = m0;
    let mut r: u64 = 0;
    proof {
        lemma2_to64();
        vstd::arithmetic::power2::lemma_pow2_strictly_increases(16, 63);
    }
    for k in 0..16u64
        invariant
            m == spec_frac_m(m0 as nat, k as nat),
            r == spec_frac_r(m0 as nat, k as nat),
            pow2(63) <= m as nat && (m as nat) < pow2(64),
            r < pow2(k as nat),
            pow2(16) == 65536,
    {
        proof {
            lemma_frac_step_in_range(m as nat);
            lemma_pow2_pos(63);
            assert((m as u128) * (m as u128) == (m as nat) * (m as nat));
            lemma2_to64();
            vstd::arithmetic::power2::lemma2_to64_rest();
            assert(pow2(63) == 0x8000000000000000 && pow2(64) == 0x10000000000000000);
            assert(pow2((k + 1) as nat) == 2 * pow2(k as nat)) by {
                lemma_pow2_adds(k as nat, 1);
            }
        }
        let sq: u128 = (m as u128) * (m as u128) / 0x8000_0000_0000_0000u128;
        if sq >= 0x1_0000_0000_0000_0000u128 {
            m = (sq / 2) as u64;
            r = 2 * r + 1;
        } else {
            m = sq as u64;
            r = 2 * r;
        }
    }
    proof {
        lemma2_to64();
    }
    r
}

/// The fixed-point binary logarithm of `x`, on the scale of `LOG_ONE`.
pub fn log2_fp(x: u64) -> (r: u64)
    requires
        x >= 1,
    ensures
        r == spec_log2_fp(x as nat),
        r < 64 * 65536,
{
    let e = log2_floor(x);
    let m = mantissa(x);
    proof {
        lemma2_to64();
        lemma_mantissa_in_range(x as nat);
    }
    let f = frac16(m);
    e * LOG_ONE + f
}

/// How often the byte value `v` occurs in `s`.
pub open spec fn count_byte(s: Seq<u8>, v: u8) -> nat
    decreases s.len(),
{
    if s.len() == 0 {
        0
    } else {
        count_byte(s.drop_last(), v) + if s.last() == v {
            1nat
        } else {
            0nat
        }
    }
}

/// A byte value occurs at most as often as the slice is long.
pub proof fn lemma_count_byte_le_len(s: Seq<u8>, v: u8)
    ensures
        count_byte(s, v) <= s.len(),
    decreases s.len(),
{
    if s.len() > 0 {
        lemma_count_byte_le_len(s.drop_last(), v);
    }
}

/// The contribution of one byte value to the entropy sum, on the fixed-point
/// scale: its count times how far its binary logarithm falls short of the
/// whole slice's.
pub open spec fn spec_term(c: nat, n: nat) -> int {
    if c == 0 {
        0
    } else {
        c * (spec_log2_fp(n) - spec_log2_fp(c))
    }
}

/// The entropy sum over the byte values from `v` up.
pub open spec fn spec_term_sum(s: Seq<u8>, v: int) -> int
    decreases 256 - v,
{
    if v < 0 || v >= 256 {
        0
    } else {
        spec_term(count_byte(s, v as u8), s.len()) + spec_term_sum(s, v + 1)
    }
}

/// The Shannon entropy of a byte slice in millibits per byte: the entropy
/// sum scaled from the fixed-point logarithm to thousandths of a bit.
/// An empty slice has entropy zero by definition.
pub open spec fn spec_entropy_mbits(s: Seq<u8>) -> int {
    if s.len() == 0 {
        0
    } else {
        spec_term_sum(s, 0) * 1000 / (s.len() * 65536) as int
    }
}

/// The number of occurrences over the byte values from `v` up.
pub open spec fn spec_count_sum(s: Seq<u8>, v: int) -> nat
    decreases 256 - v,
{
    if v < 0 || v >= 256 {
        0
    } else {
        count_byte(s, v as u8) + spec_count_sum(s, v + 1)
    }
}

/// Appending one byte raises exactly one count in the tail of the count sum.
proof fn lemma_count_sum_push(s: Seq<u8>, b: u8, v: int)
    requires
        0 <= v,
    ensures
        spec_count_sum(s.push(b), v) == spec_count_sum(s, v) + if v <= b as int {
            1int
        } else {
            0int
        },
    decreases 256 - v,
{
    if 0 <= v < 256 {
        lemma_count_sum_push(s, b, v + 1);
        assert(s.push(b).drop_last() =~= s);
        assert(count_byte(s.push(b), v as u8) == count_byte(s, v as u8) + if v as u8 == b {
            1nat
        } else {
            0nat
        });
    }
}

/// The counts of all 256 byte values add up to the length of the slice.
pub proof fn lemma_count_sum_total(s: Seq<u8>)
    ensures
        spec_count_sum(s, 0) == s.len(),
    decreases s.len(),
{
    if s.len() == 0 {
        lemma_count_sum_zero_range(s, 0);
    } else {
        let pre = s.drop_last();
        lemma_count_sum_total(pre);
        assert(pre.push(s.last()) =~= s);
        lemma_count_sum_push(pre, s.last(), 0);
    }
}

/// Every count of an empty slice is zero, so any tail of the count sum is.
proof fn lemma_count_sum_zero_range(s: Seq<u8>, v: int)
    requires
        s.len() == 0,
    ensures
        spec_count_sum(s, v) == 0,
    decreases 256 - v,
{
    if 0 <= v < 256 {
        lemma_count_sum_zero_range(s, v + 1);
    }
}

/// Computes the Shannon entropy of a byte slice in millibits per byte.
///
/// The result is exactly the fixed-point score `spec_entropy_mbits`; it is
/// 0 for empty or constant input and 8000 for input whose 256 byte-value
/// counts are all equal.
pub fn shannon_entropy_mbits(data: &[u8]) -> (r: u64)
    ensures
        r as int == spec_entropy_mbits(data@),
        r <= 64000,
{
    let n = data.len();
    if n == 0 {
        return 0;
    }
    let mut hist: Vec<u64> = Vec::new();
    for v in 0..256usize
        invariant
            hist@.len() == v,
            forall|w: int| 0 <= w < v ==> hist@[w] == 0,
    {
        hist.push(0);
    }
    assert(data@.take(0) =~= Seq::<u8>::empty());
    proof {
        assert forall|w: u8| count_byte(data@.take(0), w) == 0 by {}
    }
    for i in 0..n
        invariant
            n == data@.len(),
            hist@.len() == 256,
            forall|w: int|
                0 <= w < 256 ==> hist@[w] == count_byte(#[trigger] data@.take(i as int), w as u8),
    {
        let b = data[i];
        let c = hist[b as usize];
        proof {
            lemma_count_byte_le_len(data@.take(i as int), b);
        }
        hist[b as usize] = c + 1;
        proof {
            assert(data@.take(i + 1).drop_last() =~= data@.take(i as int));
            assert(data@.take(i + 1).last() == data@[i as int]);
            assert forall|w: int| 0 <= w < 256 implies hist@[w] == count_byte(
                data@.take(i + 1),
                w as u8,
            ) by {}
        }
    }
    proof {
        assert(data@.take(n as int) =~= data@);
    }
    let n64: u64 = n as u64;
    let l_n = log2_fp(n64);
    let mut total: u128 = 0;
    let ghost s = data@;
    proof {
        lemma_count_sum_total(s);
    }
    for v in 0..256usize
        invariant
            n64 == s.len(),
            n64 >= 1,
            hist@.len() == 256,
            forall|w: int| 0 <= w < 256 ==> hist@[w] == count_byte(s, w as u8),
            l_n == spec_log2_fp(s.len() as nat),
            l_n < 64 * 65536,
            total + spec_term_sum(s, v as int) == spec_term_sum(s, 0),
            total <= (spec_count_sum(s, 0) - spec_count_sum(s, v as int)) * l_n,
            spec_count_sum(s, 0) == s.len(),
    {
        let c = hist[v];
        proof {
            lemma_count_sum_bounds(s, v as int);
        }
        if c > 0 {
            proof {
                lemma_count_byte_le_len(s, v as u8);
                u64_max_is_pow2_64_minus_one();
                assert(s.len() < pow2(64));
                lemma_log2_fp_mono(c as nat, s.len() as nat);
            }
            let l_c = log2_fp(c);
            proof {
                pow2_128_facts();
                lemma2_to64();
                assert((c as int) * ((l_n - l_c) as int) < pow2(64) * pow2(23)) by {
                    lemma_product_below_bounds(
                        c as int,
                        pow2(64) as int,
                        (l_n - l_c) as int,
                        pow2(23) as int,
                    );
                }
            }
            let term: u128 = (c as u128) * ((l_n - l_c) as u128);
            proof {
                let processed = (spec_count_sum(s, 0) - spec_count_sum(s, v as int)) as nat;
                assert(term <= c * l_n) by {
                    lemma_mul_inequality(
                        (l_n - l_c) as int,
                        l_n as int,
                        c as int,
                    );
                    vstd::arithmetic::mul::lemma_mul_is_commutative(c as int, l_n as int);
                    vstd::arithmetic::mul::lemma_mul_is_commutative(c as int, (l_n - l_c) as int);
                }
                assert(total + term <= (processed + c) * l_n) by (nonlinear_arith)
                    requires
                        total <= processed * l_n,
                        term <= c * l_n,
                ;
                assert((processed + c) * l_n <= s.len() * l_n) by {
                    lemma_mul_inequality(
                        (processed + c) as int,
                        s.len() as int,
                        l_n as int,
                    );
                }
                assert(s.len() * l_n < pow2(64) * pow2(23)) by {
                    lemma_product_below_bounds(
                        s.len() as int,
                        pow2(64) as int,
                        l_n as int,
                        pow2(23) as int,
                    );
                }
            }
            total = total + term;
        }
        proof {
            assert(spec_term_sum(s, v as int) == spec_term(count_byte(s, v as u8), s.len())
                + spec_term_sum(s, v + 1));
        }
    }
    proof {
        assert(spec_term_sum(s, 256) == 0);
        assert(total == spec_term_sum(s, 0));
        assert(total <= s.len() * l_n) by {
            lemma_mul_inequality(
                (spec_count_sum(s, 0) - spec_count_sum(s, 256)) as int,
                s.len() as int,
                l_n as int,
            );
        }
    }
    let denom: u128 = (n64 as u128) * 65536;
    proof {
        // the final division fits far below the 128-bit limit
        assert(total * 1000 <= (s.len() * l_n) * 1000) by {
            lemma_mul_inequality(total as int, (s.len() * l_n) as int, 1000);
            vstd::arithmetic::mul::lemma_mul_is_commutative(total as int, 1000);
            vstd::arithmetic::mul::lemma_mul_is_commutative((s.len() * l_n) as int, 1000);
        }
        assert((s.len() * l_n) * 1000 < (s.len() * 65536) * 64000) by (nonlinear_arith)
            requires
                l_n < 64 * 65536,
                s.len() >= 1,
        ;
        pow2_128_facts();
        assert(s.len() < pow2(64)) by {
            u64_max_is_pow2_64_minus_one();
            assert(n64 <= u64::MAX);
        }
        assert(pow2(64) * (65536 * 64000) < pow2(128)) by {
            lemma2_to64();
            vstd::arithmetic::power2::lemma2_to64_rest();
            lemma_pow2_adds(64, 64);
            assert(65536 * 64000 < pow2(64));
            lemma_left_factor_keeps_strict(pow2(64) as int, (65536 * 64000) as int, pow2(64) as int);
        }
        assert((s.len() * 65536) * 64000 < pow2(128)) by (nonlinear_arith)
            requires
                s.len() < pow2(64),
                pow2(64) * (65536 * 64000) < pow2(128),
        ;
        assert(((total * 1000) as int) / (denom as int) < 64000) by {
            lemma_multiply_divide_lt(
                (total * 1000) as int,
                denom as int,
                64000,
            );
        }
    }
    let r128: u128 = total * 1000 / denom;
    r128 as u64
}

/// In a slice whose bytes are all equal, that byte value accounts for the
/// whole length and every other value for nothing.
proof fn lemma_count_all_same(s: Seq<u8>, w: u8)
    requires
        s.len() > 0,
        forall|i: int| 0 <= i < s.len() ==> #[trigger] s[i] == s[0],
    ensures
        count_byte(s, w) == if w == s[0] {
            s.len()
        } else {
            0
        },
    decreases s.len(),
{
    assert(s.last() == s[0]);
    if s.len() == 1 {
        assert(s.drop_last().len() == 0);
        assert(count_byte(s.drop_last(), w) == 0);
    } else {
        assert(s.drop_last()[0] == s[0]);
        lemma_count_all_same(s.drop_last(), w);
    }
}

/// Every tail of the entropy sum of a constant slice vanishes.
proof fn lemma_term_sum_const(s: Seq<u8>, v: int)
    requires
        s.len() > 0,
        forall|i: int| 0 <= i < s.len() ==> #[trigger] s[i] == s[0],
    ensures
        spec_term_sum(s, v) == 0,
    decreases 256 - v,
{
    if 0 <= v < 256 {
        lemma_term_sum_const(s, v + 1);
        lemma_count_all_same(s, v as u8);
        let c = count_byte(s, v as u8);
        if c != 0 {
            assert(c == s.len());
            assert(spec_log2_fp(s.len() as nat) - spec_log2_fp(c) == 0);
            assert(c * (spec_log2_fp(s.len() as nat) - spec_log2_fp(c)) == 0) by {
                vstd::arithmetic::mul::lemma_mul_by_zero_is_zero(c as int);
            }
        }
        assert(spec_term(c, s.len()) == 0);
        assert(spec_term_sum(s, v) == spec_term(c, s.len()) + spec_term_sum(s, v + 1));
    }
}

/// A slice whose bytes are all equal — in particular an all-zero slice of
/// any length — has entropy zero; so does the empty slice, by definition.
pub proof fn lemma_entropy_of_constant(s: Seq<u8>)
    requires
        forall|i: int| 0 <= i < s.len() ==> #[trigger] s[i] == s[0],
    ensures
        spec_entropy_mbits(s) == 0,
{
    if s.len() > 0 {
        lemma_term_sum_const(s, 0);
        vstd::arithmetic::div_mod::lemma_div_of0((s.len() * 65536) as int);
    }
}

/// Every tail of the entropy sum of an exactly uniform slice is the number
/// of remaining byte values times one uniform contribution.
proof fn lemma_term_sum_uniform(s: Seq<u8>, v: int, k: nat)
    requires
        forall|w: u8| count_byte(s, w) == k,
    ensures
        spec_term_sum(s, v) == if v < 0 {
            0int
        } else if v > 256 {
            0int
        } else {
            (256 - v) * spec_term(k, s.len())
        },
    decreases 256 - v,
{
    if v < 0 {
        assert(spec_term_sum(s, v) == 0);
    } else if v >= 256 {
        assert(spec_term_sum(s, v) == 0);
        if v == 256 {
            assert((256 - v) * spec_term(k, s.len()) == 0);
        }
    } else {
        lemma_term_sum_uniform(s, v + 1, k);
        assert(count_byte(s, v as u8) == k);
        assert(spec_term_sum(s, v) == spec_term(k, s.len()) + spec_term_sum(s, v + 1));
        let t = spec_term(k, s.len());
        assert((256 - v) * t == t + (256 - (v + 1)) * t) by (nonlinear_arith);
    }
}

/// The counts of an exactly uniform slice add up over any tail of the
/// byte values to the number of remaining values times the shared count.
proof fn lemma_count_sum_uniform(s: Seq<u8>, v: int, k: nat)
    requires
        0 <= v <= 256,
        forall|w: u8| count_byte(s, w) == k,
    ensures
        spec_count_sum(s, v) == (256 - v) * k,
    decreases 256 - v,
{
    if v < 256 {
        lemma_count_sum_uniform(s, v + 1, k);
        assert(count_byte(s, v as u8) == k);
        assert(spec_count_sum(s, v) == count_byte(s, v as u8) + spec_count_sum(s, v + 1));
        assert((256 - v) * k == k + (256 - (v + 1)) * k) by (nonlinear_arith);
    } else {
        assert(spec_count_sum(s, v) == 0);
        assert((256 - v) * k == 0);
    }
}

/// A slice in which every one of the 256 byte values occurs equally often —
/// an exactly uniform distribution — has entropy 8000 millibits, that is,
/// 8 bits per byte.
pub proof fn lemma_entropy_of_uniform(s: Seq<u8>, k: nat)
    requires
        k >= 1,
        s.len() < pow2(64),
        forall|w: u8| count_byte(s, w) == k,
    ensures
        spec_entropy_mbits(s) == 8000,
{
    lemma_count_sum_total(s);
    lemma_count_sum_uniform(s, 0, k);
    assert(s.len() == 256 * k);
    assert(k < pow2(64)) by {
        assert(k <= 256 * k) by (nonlinear_arith)
            requires
                k >= 0,
        ;
    }
    assert(k * pow2(8) == 256 * k) by {
        lemma2_to64();
        vstd::arithmetic::mul::lemma_mul_is_commutative(k as int, 256);
    }
    lemma_log2_fp_shift(k, 8);
    assert(spec_log2_fp(s.len() as nat) == 8 * 65536 + spec_log2_fp(k));
    let t = spec_term(k, s.len());
    assert(t == k * (8 * 65536)) by {
        assert(spec_log2_fp(s.len() as nat) - spec_log2_fp(k) == 8 * 65536);
    }
    lemma_term_sum_uniform(s, 0, k);
    assert(spec_term_sum(s, 0) == 256 * (k * (8 * 65536)));
    let d = (s.len() * 65536) as int;
    assert(d == 256 * k * 65536) by (nonlinear_arith)
        requires
            s.len() == 256 * k,
            d == s.len() * 65536,
    ;
    assert(spec_term_sum(s, 0) * 1000 == d * 8000) by (nonlinear_arith)
        requires
            spec_term_sum(s, 0) == 256 * (k * (8 * 65536)),
            d == 256 * k * 65536,
    ;
    assert(d > 0) by (nonlinear_arith)
        requires
            k >= 1,
            d == 256 * k * 65536,
    ;
    assert(d * 8000 / d == 8000) by {
        lemma_div_multiples_vanish(8000, d);
        vstd::arithmetic::mul::lemma_mul_is_commutative(8000, d);
    }
}

/// Any tail of the count sum is at most the whole count sum.
proof fn lemma_count_sum_bounds(s: Seq<u8>, v: int)
    requires
        0 <= v < 256,
    ensures
        spec_count_sum(s, v) == count_byte(s, v as u8) + spec_count_sum(s, v + 1),
        spec_count_sum(s, v + 1) <= spec_count_sum(s, v) <= spec_count_sum(s, 0),
    decreases v,
{
    if v > 0 {
        lemma_count_sum_bounds(s, v - 1);
    }
}

/// `u64::MAX` is one less than 2 to the 64.
proof fn u64_max_is_pow2_64_minus_one()
    ensures
        u64::MAX + 1 == pow2(64),
{
    lemma2_to64();
    vstd::arithmetic::power2::lemma2_to64_rest();
}

/// Power-of-two facts around the 128-bit limit.
proof fn pow2_128_facts()
    ensures
        pow2(87) < pow2(128),
        u128::MAX + 1 == pow2(128),
        pow2(64) * pow2(23) == pow2(87),
{
    vstd::arithmetic::power2::lemma_pow2_strictly_increases(87, 128);
    lemma_pow2_adds(64, 23);
    lemma_pow2_adds(64, 64);
    lemma2_to64();
    vstd::arithmetic::power2::lemma2_to64_rest();
    assert(pow2(128) == pow2(64) * pow2(64));
    assert(pow2(64) == 0x10000000000000000);
    assert(u128::MAX + 1 == 0x10000000000000000 * 0x10000000000000000);
}

/// The product of nonnegative factors stays below the product of bounds.
proof fn lemma_product_below_bounds(a: int, abound: int, b: int, bbound: int)
    requires
        0 <= a < abound,
        0 <= b < bbound,
    ensures
        a * b < abound * bbound,
{
    assert(a * b < abound * bbound) by (nonlinear_arith)
        requires
            0 <= a < abound,
            0 <= b < bbound,
    ;
}

/// A positive left factor keeps a strict order of right factors.
proof fn lemma_left_factor_keeps_strict(a: int, b: int, c: int)
    requires
        a >= 1,
        0 <= b < c,
    ensures
        a * b < a * c,
{
    vstd::arithmetic::mul::lemma_mul_strict_inequality(b, c, a);
    vstd::arithmetic::mul::lemma_mul_is_commutative(a, b);
    vstd::arithmetic::mul::lemma_mul_is_commutative(a, c);
}

} // verus!
