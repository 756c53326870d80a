//! Numbers as IEEE-754 binary64 bit patterns.
//!
//! The library never computes with floating point itself. It classifies,
//! compares and negates numbers on their bit patterns, and converts counts to
//! numbers; sums, products and the like are asked of the host.

use vstd::prelude::*;
use vstd::arithmetic::power2::*;

verus! {

/// The sign bit of a binary64 pattern.
pub const SIGN_BIT: u64 = 0x8000_0000_0000_0000;

/// The exponent field of a binary64 pattern.
pub const EXPONENT_MASK: u64 = 0x7ff0_0000_0000_0000;

/// The fraction field of a binary64 pattern.
pub const FRACTION_MASK: u64 = 0x000f_ffff_ffff_ffff;

/// The smallest count that no longer has 53 significant bits or fewer.
pub const EXACT_LIMIT: u64 = 0x0020_0000_0000_0000;

/// The hidden leading bit of a normal significand.
pub const HIDDEN_BIT: u64 = 0x0010_0000_0000_0000;

/// Whether the pattern is a NaN: all exponent bits set and a nonzero fraction.
pub open spec fn spec_is_nan(bits: u64) -> bool {
    (bits & EXPONENT_MASK) == EXPONENT_MASK && (bits & FRACTION_MASK) != 0
}

/// Whether the pattern is positive or negative zero.
pub open spec fn spec_is_zero(bits: u64) -> bool {
    (bits & !SIGN_BIT) == 0
}

/// Whether the sign bit is set.
pub open spec fn spec_is_negative(bits: u64) -> bool {
    (bits & SIGN_BIT) != 0
}

/// The position of a non-NaN pattern on the number line of patterns: the
/// magnitude bits, negated when the sign bit is set. Patterns of larger
/// numbers have larger positions, and both zeros have position zero.
pub open spec fn spec_position(bits: u64) -> int {
    if spec_is_negative(bits) {
        -((bits & !SIGN_BIT) as int)
    } else {
        (bits & !SIGN_BIT) as int
    }
}

/// Numeric equality: no NaN equals anything, the two zeros are equal, and
/// otherwise the patterns must agree.
pub open spec fn spec_num_eq(a: u64, b: u64) -> bool {
    !spec_is_nan(a) && !spec_is_nan(b) && spec_position(a) == spec_position(b)
}

/// Numeric less-than: false when either side is a NaN.
pub open spec fn spec_num_lt(a: u64, b: u64) -> bool {
    !spec_is_nan(a) && !spec_is_nan(b) && spec_position(a) < spec_position(b)
}

/// Numeric less-or-equal: false when either side is a NaN.
pub open spec fn spec_num_le(a: u64, b: u64) -> bool {
    !spec_is_nan(a) && !spec_is_nan(b) && spec_position(a) <= spec_position(b)
}

/// The pattern with its sign bit flipped.
pub open spec fn spec_negate(bits: u64) -> u64 {
    bits ^ SIGN_BIT
}

#[verifier::when_used_as_spec(spec_is_nan)]
pub fn is_nan(bits: u64) -> (r: bool)
    ensures
        r == spec_is_nan(bits),
{
    (bits & EXPONENT_MASK) == EXPONENT_MASK && (bits & FRACTION_MASK) != 0
}

#[verifier::when_used_as_spec(spec_is_zero)]
pub fn is_zero(bits: u64) -> (r: bool)
    ensures
        r == spec_is_zero(bits),
{
    (bits & !SIGN_BIT) == 0
}

#[verifier::when_used_as_spec(spec_is_negative)]
pub fn is_negative(bits: u64) -> (r: bool)
    ensures
        r == spec_is_negative(bits),
{
    (bits & SIGN_BIT) != 0
}

#[verifier::when_used_as_spec(spec_negate)]
pub fn negate(bits: u64) -> (r: u64)
    ensures
        r == spec_negate(bits),
{
    bits ^ SIGN_BIT
}

#[verifier::when_used_as_spec(spec_num_eq)]
pub fn num_eq(a: u64, b: u64) -> (r: bool)
    ensures
        r == spec_num_eq(a, b),
{
    if is_nan(a) || is_nan(b) {
        return false;
    }
    let ma: u64 = a & !SIGN_BIT;
    let mb: u64 = b & !SIGN_BIT;
    if ma == 0 && mb == 0 {
        return true;
    }
    is_negative(a) == is_negative(b) && ma == mb
}

#[verifier::when_used_as_spec(spec_num_lt)]
pub fn num_lt(a: u64, b: u64) -> (r: bool)
    ensures
        r == spec_num_lt(a, b),
{
    if is_nan(a) || is_nan(b) {
        return false;
    }
    let ma: u64 = a & !SIGN_BIT;
    let mb: u64 = b & !SIGN_BIT;
    let na: bool = is_negative(a);
    let nb: bool = is_negative(b);
    if na && nb {
        mb < ma
    } else if na {
        !(ma == 0 && mb == 0)
    } else if nb {
        false
    } else {
        ma < mb
    }
}

#[verifier::when_used_as_spec(spec_num_le)]
pub fn num_le(a: u64, b: u64) -> (r: bool)
    ensures
        r == spec_num_le(a, b),
{
    if is_nan(a) || is_nan(b) {
        return false;
    }
    let ma: u64 = a & !SIGN_BIT;
    let mb: u64 = b & !SIGN_BIT;
    let na: bool = is_negative(a);
    let nb: bool = is_negative(b);
    if na && nb {
        mb <= ma
    } else if na {
        true
    } else if nb {
        ma == 0 && mb == 0
    } else {
        ma <= mb
    }
}

/// The count that a conversion to sixteen bits gives: zero for a NaN, a
/// negative number or a number below one; 65535 for a number of 65536 or
/// more; else the number without its fraction.
pub open spec fn spec_to_u16(bits: u64) -> u16 {
    let exp = (bits >> 52) & 0x7ff;
    if spec_is_nan(bits) || spec_is_negative(bits) || exp < 1023 {
        0
    } else if exp >= 1039 {
        65535
    } else {
        ((((bits & FRACTION_MASK) | HIDDEN_BIT) >> ((1075 - exp) as u64)) & 0xffff) as u16
    }
}

/// Converts a number to a count of sixteen bits, towards zero and saturating.
#[verifier::when_used_as_spec(spec_to_u16)]
pub fn to_u16(bits: u64) -> (r: u16)
    ensures
        r == spec_to_u16(bits),
{
    let exp: u64 = (bits >> 52) & 0x7ff;
    if is_nan(bits) || is_negative(bits) || exp < 1023 {
        0
    } else if exp >= 1039 {
        65535
    } else {
        let shift: u64 = 1075 - exp;
        let sig: u64 = (bits & FRACTION_MASK) | HIDDEN_BIT;
        let low: u64 = (sig >> shift) & 0xffff;
        assert(low <= 0xffff) by (bit_vector)
            requires
                low == (sig >> shift) & 0xffff,
        ;
        low as u16
    }
}

/// The position of the highest bit that is set in a count above zero.
pub open spec fn spec_log2(n: nat) -> nat
    decreases n,
{
    if n <= 1 {
        0
    } else {
        1 + spec_log2(n / 2)
    }
}

/// The pattern of the number nearest to a count; of two that are equally
/// near, the one whose last significand bit is zero.
///
/// A count of 53 bits or fewer is its own number: see
/// [`lemma_from_count_exact`]. A longer one loses its lowest bits and is
/// rounded.
pub open spec fn spec_from_count(n: nat) -> u64 {
    if n == 0 {
        0
    } else {
        let e = spec_log2(n);
        if e <= 52 {
            ((1023 + e) * pow2(52) + (n * pow2((52 - e) as nat) - pow2(52))) as u64
        } else {
            let d = pow2((e - 52) as nat);
            let q = n / d;
            let rem = n % d;
            let up = rem * 2 > d || (rem * 2 == d && q % 2 == 1);
            let q2 = if up {
                q + 1
            } else {
                q
            };
            ((1023 + e) * pow2(52) + (q2 - pow2(52))) as u64
        }
    }
}

/// The exponent field of a pattern.
pub open spec fn spec_exponent(bits: u64) -> nat {
    ((bits as nat) / pow2(52)) % 2048
}

/// The fraction field of a pattern.
pub open spec fn spec_fraction(bits: u64) -> nat {
    (bits as nat) % pow2(52)
}

/// The highest bit of a count lies between the powers of two around it.
pub proof fn lemma_log2_bounds(n: nat)
    requires
        n > 0,
    ensures
        pow2(spec_log2(n)) <= n < pow2(spec_log2(n) + 1),
    decreases n,
{
    lemma2_to64();
    if n > 1 {
        lemma_log2_bounds(n / 2);
        let e = spec_log2(n / 2);
        lemma_pow2_unfold(e + 1);
        lemma_pow2_unfold(e + 2);
        assert(pow2(e + 1) == 2 * pow2(e));
        assert(pow2(e + 2) == 2 * pow2(e + 1));
    }
}

/// The highest bit is the only exponent whose powers of two lie around
/// the count.
pub proof fn lemma_log2_unique(n: nat, e: nat)
    requires
        pow2(e) <= n < pow2(e + 1),
    ensures
        spec_log2(n) == e,
{
    lemma_pow2_pos(e);
    lemma_log2_bounds(n);
    let l = spec_log2(n);
    if l < e {
        if l + 1 < e {
            lemma_pow2_strictly_increases(l + 1, e);
        }
    } else if l > e {
        if e + 1 < l {
            lemma_pow2_strictly_increases(e + 1, l);
        }
    }
}

/// A count of 53 bits or fewer is converted exactly: the significand of
/// the result, with its hidden bit, is the count shifted up to 53 bits, and
/// the exponent tells by how far.
pub proof fn lemma_from_count_exact(n: nat)
    requires
        0 < n < pow2(53),
    ensures
        1023 <= spec_exponent(spec_from_count(n)) <= 1075,
        pow2(52) + spec_fraction(spec_from_count(n)) == n * pow2(
            (1075 - spec_exponent(spec_from_count(n))) as nat,
        ),
{
    lemma2_to64();
    lemma2_to64_rest();
    lemma_log2_bounds(n);
    let e = spec_log2(n);
    if e > 52 {
        lemma_pow2_strictly_increases(52, e);
        if e > 53 {
            lemma_pow2_strictly_increases(53, e);
        }
    }
    let k = (52 - e) as nat;
    let s = pow2(k);
    lemma_pow2_adds(e, k);
    lemma_pow2_adds(e + 1, k);
    lemma_pow2_unfold(e + 1);
    let frac = n * s - pow2(52);
    assert(0 <= frac < pow2(52)) by (nonlinear_arith)
        requires
            pow2(e) <= n < 2 * pow2(e),
            pow2(e) * s == pow2(52),
            frac == n * s - pow2(52),
            s > 0,
    ;
    let bits: int = (1023 + e) * pow2(52) + frac;
    let h: int = pow2(52) as int;
    assert(0 <= bits < 0x1_0000_0000_0000_0000) by (nonlinear_arith)
        requires
            bits == (1023 + e) * h + frac,
            0 <= frac < h,
            e <= 52,
            h == 0x10000000000000,
    ;
    assert(bits / h == 1023 + e && bits % h == frac) by (nonlinear_arith)
        requires
            bits == (1023 + e) * h + frac,
            0 <= frac < h,
            h > 0,
    ;
}

fn pow2_u64(k: u64) -> (r: u64)
    requires
        k < 64,
    ensures
        r == pow2(k as nat),
{
    let mut r: u64 = 1;
    let mut i: u64 = 0;
    proof {
        lemma2_to64();
    }
    while i < k
        invariant
            i <= k,
            k < 64,
            r == pow2(i as nat),
        decreases k - i,
    {
        proof {
            lemma_pow2_unfold((i + 1) as nat);
            lemma2_to64();
            lemma2_to64_rest();
            if i + 1 < 63 {
                lemma_pow2_strictly_increases((i + 1) as nat, 63);
            }
        }
        r = r * 2;
        i += 1;
    }
    r
}

/// The number nearest to a count; see [`spec_from_count`].
pub fn from_usize(n: usize) -> (r: u64)
    ensures
        r == spec_from_count(n as nat),
{
    if n == 0 {
        return 0;
    }
    let m: u64 = n as u64;
    let mut e: u64 = 0;
    let mut p: u64 = 1;
    proof {
        lemma2_to64();
    }
    while p <= m / 2
        invariant
            p == pow2(e as nat),
            p <= m,
            e <= 63,
        decreases m - p,
    {
        proof {
            lemma_pow2_unfold((e + 1) as nat);
            lemma2_to64();
            lemma2_to64_rest();
            if e >= 63 {
                assert(false);
            }
        }
        p = p * 2;
        e += 1;
    }
    proof {
        lemma_pow2_unfold((e + 1) as nat);
        lemma_log2_unique(m as nat, e as nat);
        lemma2_to64();
        lemma2_to64_rest();
    }
    let hidden: u64 = 0x10_0000_0000_0000;
    if e <= 52 {
        let scale = pow2_u64(52 - e);
        proof {
            lemma_pow2_adds(e as nat, (52 - e) as nat);
            assert((m - p) * scale < pow2(52) && (m - p) * scale == m * scale - pow2(52))
                by (nonlinear_arith)
                requires
                    p <= m < 2 * p,
                    p * scale == pow2(52),
                    scale > 0,
            ;
        }
        let frac: u64 = (m - p) * scale;
        let r = (1023 + e) * hidden + frac;
        assert(r == spec_from_count(n as nat));
        r
    } else {
        let d = pow2_u64(e - 52);
        let q: u64 = m / d;
        let rem: u64 = m % d;
        proof {
            lemma_pow2_adds(52, (e - 52) as nat);
            lemma_pow2_adds(53, (e - 52) as nat);
            lemma_pow2_pos((e - 52) as nat);
            if e - 52 < 11 {
                lemma_pow2_strictly_increases((e - 52) as nat, 11);
            }
            assert(hidden <= q < 2 * hidden && rem < d) by (nonlinear_arith)
                requires
                    hidden * d <= m < 2 * hidden * d,
                    d > 0,
                    q == m / d,
                    rem == m % d,
            ;
        }
        let up = rem * 2 > d || (rem * 2 == d && q % 2 == 1);
        let q2: u64 = if up {
            q + 1
        } else {
            q
        };
        let r = (1023 + e) * hidden + (q2 - hidden);
        assert(r == spec_from_count(n as nat));
        r
    }
}

} // verus!
