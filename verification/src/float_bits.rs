//! Floating-point values as bit patterns.
//!
//! Device buffers and weights hold IEEE 754 numbers. The harness classifies,
//! compares and repacks them by their bits: `u32` for single precision, `u64` for
//! double precision, `u16` for half precision.
use vstd::prelude::*;
use vstd::arithmetic::power2::{lemma_pow2_adds, lemma_pow2_pos, lemma_pow2_strictly_increases, pow2};

verus! {

/// The bits of positive infinity, in single precision.
pub const F32_INFINITY: u32 = 0x7F80_0000;

/// The bits of a quiet NaN, in single precision.
pub const F32_NAN: u32 = 0x7FC0_0000;

/// The bits of 1000, in single precision.
pub const F32_THOUSAND: u32 = 0x447A_0000;

/// The bits of 65504, the largest number of half precision, in single precision.
pub const F32_HALF_MAX: u32 = 0x477F_E000;

/// The bits of positive infinity, in double precision.
pub const F64_INFINITY: u64 = 0x7FF0_0000_0000_0000;

/// The bits without the sign.
pub open spec fn magnitude(bits: u32) -> u32 {
    bits % 0x8000_0000
}

/// Whether the sign bit is set.
pub open spec fn negative(bits: u32) -> bool {
    bits >= 0x8000_0000
}

/// The biased exponent.
pub open spec fn exponent(bits: u32) -> u32 {
    magnitude(bits) / 0x80_0000
}

/// The fraction bits.
pub open spec fn fraction(bits: u32) -> u32 {
    bits % 0x80_0000
}

/// Not a number: the largest exponent with a fraction.
pub open spec fn is_nan(bits: u32) -> bool {
    magnitude(bits) > F32_INFINITY
}

/// An infinity of either sign.
pub open spec fn is_infinite(bits: u32) -> bool {
    magnitude(bits) == F32_INFINITY
}

/// Neither a NaN nor an infinity.
pub open spec fn is_finite(bits: u32) -> bool {
    magnitude(bits) < F32_INFINITY
}

/// An integer that orders the numbers as their values do. Both zeros have the
/// key 0.
pub open spec fn order_key(bits: u32) -> int {
    if negative(bits) {
        -(magnitude(bits) as int)
    } else {
        magnitude(bits) as int
    }
}

/// The value of a finite number, in units of the smallest positive one (two to
/// the power of minus 149).
pub open spec fn scaled_value(bits: u32) -> int {
    let e = exponent(bits);
    let size = if e == 0 {
        fraction(bits) as int
    } else {
        (0x80_0000 + fraction(bits)) * pow2((e - 1) as nat)
    };
    if negative(bits) {
        -size
    } else {
        size
    }
}

/// The comparison `a > b` of two numbers: false where either is a NaN.
pub open spec fn greater(a: u32, b: u32) -> bool {
    !is_nan(a) && !is_nan(b) && order_key(a) > order_key(b)
}

/// The size of a number grows with its bits.
proof fn lemma_size_grows(a: u32, b: u32)
    requires
        !negative(a),
        !negative(b),
        is_finite(a),
        is_finite(b),
        a < b,
    ensures
        0 <= scaled_value(a) < scaled_value(b),
{
    let (ea, eb) = (exponent(a), exponent(b));
    let (fa, fb) = (fraction(a) as int, fraction(b) as int);
    assert(a == ea * 0x80_0000 + fa);
    assert(b == eb * 0x80_0000 + fb);
    assert(ea <= eb);
    if ea > 0 {
        lemma_pow2_pos((ea - 1) as nat);
        let p = pow2((ea - 1) as nat) as int;
        assert(0 <= (0x80_0000 + fa) * p) by (nonlinear_arith)
            requires
                fa >= 0,
                p > 0,
        ;
    }
    if eb > 0 {
        lemma_pow2_pos((eb - 1) as nat);
    }
    if ea == eb {
        if ea > 0 {
            let p = pow2((ea - 1) as nat) as int;
            assert((0x80_0000 + fa) * p < (0x80_0000 + fb) * p) by (nonlinear_arith)
                requires
                    fa < fb,
                    p > 0,
            ;
        }
    } else if ea == 0 {
        let p = pow2((eb - 1) as nat) as int;
        assert(fa < (0x80_0000 + fb) * p) by (nonlinear_arith)
            requires
                0 <= fa < 0x80_0000,
                fb >= 0,
                p > 0,
        ;
    } else {
        let pa = pow2((ea - 1) as nat) as int;
        let pb = pow2((eb - 1) as nat) as int;
        vstd::arithmetic::power2::lemma_pow2_unfold(ea as nat);
        assert(pow2(ea as nat) == 2 * pa);
        if ea < eb - 1 {
            lemma_pow2_strictly_increases(ea as nat, (eb - 1) as nat);
        }
        assert(2 * pa <= pb);
        assert((0x80_0000 + fa) * pa < (0x80_0000 + fb) * pb) by (nonlinear_arith)
            requires
                0 <= fa < 0x80_0000,
                fb >= 0,
                pa > 0,
                2 * pa <= pb,
        ;
    }
}

/// Finite numbers compare as their values do.
pub proof fn keys_order_as_values(a: u32, b: u32)
    requires
        is_finite(a),
        is_finite(b),
    ensures
        order_key(a) < order_key(b) <==> scaled_value(a) < scaled_value(b),
        order_key(a) == order_key(b) <==> scaled_value(a) == scaled_value(b),
{
    let (ma, mb) = (magnitude(a), magnitude(b));
    assert(scaled_value(0) == 0);
    assert(scaled_value(a) == if negative(a) {
        -scaled_value(ma)
    } else {
        scaled_value(ma)
    });
    assert(scaled_value(b) == if negative(b) {
        -scaled_value(mb)
    } else {
        scaled_value(mb)
    });
    if ma > 0 {
        lemma_size_grows(0, ma);
    }
    if mb > 0 {
        lemma_size_grows(0, mb);
    }
    if ma < mb {
        lemma_size_grows(ma, mb);
    } else if mb < ma {
        lemma_size_grows(mb, ma);
    }
}

/// Whether the bits are those of a NaN.
pub fn f32_is_nan(bits: u32) -> (nan: bool)
    ensures
        nan == is_nan(bits),
{
    bits % 0x8000_0000 > F32_INFINITY
}

/// Whether the bits are those of an infinity.
pub fn f32_is_infinite(bits: u32) -> (infinite: bool)
    ensures
        infinite == is_infinite(bits),
{
    bits % 0x8000_0000 == F32_INFINITY
}

/// The integer that orders a single-precision number, none for a NaN.
pub fn f32_key(bits: u32) -> (key: Option<i64>)
    ensures
        key is None <==> is_nan(bits),
        key matches Some(k) ==> k == order_key(bits),
{
    let size: u32 = bits % 0x8000_0000;
    if size > F32_INFINITY {
        None
    } else if bits >= 0x8000_0000 {
        Some(-(size as i64))
    } else {
        Some(size as i64)
    }
}

/// The comparison `a > b` of two single-precision numbers.
pub fn f32_greater(a: u32, b: u32) -> (holds: bool)
    ensures
        holds == greater(a, b),
{
    match (f32_key(a), f32_key(b)) {
        (Some(ka), Some(kb)) => ka > kb,
        _ => false,
    }
}

/// The bits of a double-precision number without the sign.
pub open spec fn magnitude64(bits: u64) -> u64 {
    bits % 0x8000_0000_0000_0000
}

/// Not a number, in double precision.
pub open spec fn is_nan64(bits: u64) -> bool {
    magnitude64(bits) > F64_INFINITY
}

/// An integer that orders the double-precision numbers as their values do.
pub open spec fn order_key64(bits: u64) -> int {
    if bits >= 0x8000_0000_0000_0000 {
        -(magnitude64(bits) as int)
    } else {
        magnitude64(bits) as int
    }
}

/// Whether the sign bit of a double-precision number is set.
pub open spec fn negative64(bits: u64) -> bool {
    bits >= 0x8000_0000_0000_0000
}

/// The biased exponent of a double-precision number.
pub open spec fn exponent64(bits: u64) -> u64 {
    magnitude64(bits) / 0x10_0000_0000_0000
}

/// The fraction bits of a double-precision number.
pub open spec fn fraction64(bits: u64) -> u64 {
    bits % 0x10_0000_0000_0000
}

/// A double-precision number that is neither a NaN nor an infinity.
pub open spec fn is_finite64(bits: u64) -> bool {
    magnitude64(bits) < F64_INFINITY
}

/// The value of a finite double-precision number, in units of the smallest
/// positive one.
pub open spec fn scaled_value64(bits: u64) -> int {
    let e = exponent64(bits);
    let size = if e == 0 {
        fraction64(bits) as int
    } else {
        (0x10_0000_0000_0000 + fraction64(bits)) * pow2((e - 1) as nat)
    };
    if negative64(bits) {
        -size
    } else {
        size
    }
}

/// The size of a double-precision number grows with its bits.
proof fn lemma_size_grows64(a: u64, b: u64)
    requires
        !negative64(a),
        !negative64(b),
        is_finite64(a),
        is_finite64(b),
        a < b,
    ensures
        0 <= scaled_value64(a) < scaled_value64(b),
{
    let (ea, eb) = (exponent64(a), exponent64(b));
    let (fa, fb) = (fraction64(a) as int, fraction64(b) as int);
    assert(a == ea * 0x10_0000_0000_0000 + fa);
    assert(b == eb * 0x10_0000_0000_0000 + fb);
    assert(ea <= eb);
    if ea > 0 {
        lemma_pow2_pos((ea - 1) as nat);
        let p = pow2((ea - 1) as nat) as int;
        assert(0 <= (0x10_0000_0000_0000 + fa) * p) by (nonlinear_arith)
            requires
                fa >= 0,
                p > 0,
        ;
    }
    if eb > 0 {
        lemma_pow2_pos((eb - 1) as nat);
    }
    if ea == eb {
        if ea > 0 {
            let p = pow2((ea - 1) as nat) as int;
            assert((0x10_0000_0000_0000 + fa) * p < (0x10_0000_0000_0000 + fb) * p) by (nonlinear_arith)
                requires
                    fa < fb,
                    p > 0,
            ;
        }
    } else if ea == 0 {
        let p = pow2((eb - 1) as nat) as int;
        assert(fa < (0x10_0000_0000_0000 + fb) * p) by (nonlinear_arith)
            requires
                0 <= fa < 0x10_0000_0000_0000,
                fb >= 0,
                p > 0,
        ;
    } else {
        let pa = pow2((ea - 1) as nat) as int;
        let pb = pow2((eb - 1) as nat) as int;
        vstd::arithmetic::power2::lemma_pow2_unfold(ea as nat);
        assert(pow2(ea as nat) == 2 * pa);
        if ea < eb - 1 {
            lemma_pow2_strictly_increases(ea as nat, (eb - 1) as nat);
        }
        assert(2 * pa <= pb);
        assert((0x10_0000_0000_0000 + fa) * pa < (0x10_0000_0000_0000 + fb) * pb) by (nonlinear_arith)
            requires
                0 <= fa < 0x10_0000_0000_0000,
                fb >= 0,
                pa > 0,
                2 * pa <= pb,
        ;
    }
}

/// Finite double-precision numbers compare as their values do.
pub proof fn keys64_order_as_values(a: u64, b: u64)
    requires
        is_finite64(a),
        is_finite64(b),
    ensures
        order_key64(a) < order_key64(b) <==> scaled_value64(a) < scaled_value64(b),
        order_key64(a) == order_key64(b) <==> scaled_value64(a) == scaled_value64(b),
{
    let (ma, mb) = (magnitude64(a), magnitude64(b));
    assert(scaled_value64(0) == 0);
    assert(scaled_value64(a) == if negative64(a) {
        -scaled_value64(ma)
    } else {
        scaled_value64(ma)
    });
    assert(scaled_value64(b) == if negative64(b) {
        -scaled_value64(mb)
    } else {
        scaled_value64(mb)
    });
    if ma > 0 {
        lemma_size_grows64(0, ma);
    }
    if mb > 0 {
        lemma_size_grows64(0, mb);
    }
    if ma < mb {
        lemma_size_grows64(ma, mb);
    } else if mb < ma {
        lemma_size_grows64(mb, ma);
    }
}

/// The integer that orders a double-precision number, none for a NaN.
pub fn f64_key(bits: u64) -> (key: Option<i64>)
    ensures
        key is None <==> is_nan64(bits),
        key matches Some(k) ==> k == order_key64(bits),
{
    let size: u64 = bits % 0x8000_0000_0000_0000;
    if size > F64_INFINITY {
        None
    } else if bits >= 0x8000_0000_0000_0000 {
        Some(-(size as i64))
    } else {
        Some(size as i64)
    }
}

/// A single-precision number cut down to half precision: what is too small
/// becomes a zero, what is too large (or not a number) an infinity, and of the
/// fraction the high ten bits stay.
pub open spec fn half_of(bits: u32) -> int {
    let sign: int = if negative(bits) {
        0x8000
    } else {
        0
    };
    let e = exponent(bits);
    if e <= 112 {
        sign
    } else if e >= 143 {
        sign + 0x7C00
    } else {
        sign + (e - 112) * 0x400 + fraction(bits) / 0x2000
    }
}

/// Converts a single-precision number to half precision.
pub fn f32_to_f16(bits: u32) -> (half: u16)
    ensures
        half == half_of(bits),
{
    let sign: u32 = bits / 0x8000_0000;
    let exp: u32 = (bits % 0x8000_0000) / 0x80_0000;
    let frac: u32 = bits % 0x80_0000;
    if exp <= 112 {
        return (sign * 0x8000) as u16;
    }
    if exp >= 143 {
        return (sign * 0x8000 + 0x7C00) as u16;
    }
    (sign * 0x8000 + (exp - 112) * 0x400 + frac / 0x2000) as u16
}

/// The exponent bits of a half-precision number.
pub open spec fn half_exponent(half: u16) -> int {
    (half as int % 0x8000) / 0x400
}

/// The fraction bits of a half-precision number.
pub open spec fn half_fraction(half: u16) -> int {
    half as int % 0x400
}

/// A half-precision number as a single-precision one. Zeros, infinities and
/// numbers with a full fraction keep their value; a NaN becomes the quiet NaN; a
/// smallest exponent counts like any other.
pub open spec fn single_of(half: u16) -> int {
    let sign: int = if half >= 0x8000 {
        0x8000_0000
    } else {
        0
    };
    let e = half_exponent(half);
    let f = half_fraction(half);
    if e == 0 && f == 0 {
        sign
    } else if e == 31 {
        if f == 0 {
            sign + 0x7F80_0000
        } else {
            0x7FC0_0000
        }
    } else {
        sign + (e + 112) * 0x80_0000 + f * 0x2000
    }
}

/// Converts a half-precision number to single precision.
pub fn f16_to_f32(half: u16) -> (bits: u32)
    ensures
        bits == single_of(half),
{
    let sign: u32 = (half / 0x8000) as u32;
    let exp: u32 = ((half % 0x8000) / 0x400) as u32;
    let frac: u32 = (half % 0x400) as u32;
    if exp == 0 && frac == 0 {
        return sign * 0x8000_0000;
    }
    if exp == 31 {
        return if frac == 0 {
            sign * 0x8000_0000 + F32_INFINITY
        } else {
            F32_NAN
        };
    }
    sign * 0x8000_0000 + (exp + 112) * 0x80_0000 + frac * 0x2000
}

/// Two half-precision numbers in one word, the first in the low half.
pub open spec fn packed_pair(low: u32, high: u32) -> int {
    half_of(low) + half_of(high) * 0x1_0000
}

/// Converts two single-precision numbers to half precision and packs them.
pub fn pack_f16x2(low: u32, high: u32) -> (word: u32)
    ensures
        word == packed_pair(low, high),
{
    let low_half: u32 = f32_to_f16(low) as u32;
    let high_half: u32 = f32_to_f16(high) as u32;
    low_half + high_half * 0x1_0000
}

/// A half-precision number that is a zero, an infinity or has a full fraction
/// survives the way to single precision and back.
pub proof fn half_survives_widening(half: u16)
    requires
        half_exponent(half) == 0 ==> half_fraction(half) == 0,
        half_exponent(half) == 31 ==> half_fraction(half) == 0,
    ensures
        0 <= single_of(half) <= u32::MAX,
        half_of(single_of(half) as u32) == half,
{
    let bits = single_of(half) as u32;
    let e = half_exponent(half);
    let f = half_fraction(half);
    assert(0 <= e <= 31 && 0 <= f < 0x400);
    if e != 0 && e != 31 {
        let rest = (e + 112) * 0x80_0000 + f * 0x2000;
        assert(0 <= rest < 0x8000_0000);
        assert(magnitude(bits) == rest);
        assert(exponent(bits) == e + 112);
        assert(fraction(bits) == f * 0x2000);
    }
}

/// Both numbers can be read back from a packed word.
pub proof fn packed_pair_unpacks(low: u32, high: u32)
    ensures
        packed_pair(low, high) % 0x1_0000 == half_of(low),
        packed_pair(low, high) / 0x1_0000 == half_of(high),
{
    assert(0 <= half_of(low) < 0x1_0000);
    assert(0 <= half_of(high) < 0x1_0000);
}

/// The value of a half-precision number with a full fraction, in the units of
/// [`scaled_value`].
pub open spec fn half_scaled_size(half: u16) -> int {
    (0x400 + half_fraction(half)) * pow2((half_exponent(half) + 124) as nat)
}

/// Where half precision has room for the exponent, the conversion cuts towards
/// zero: it drops less than one unit of the last place.
pub proof fn half_is_cut_towards_zero(bits: u32)
    requires
        113 <= exponent(bits) <= 142,
    ensures
        ({
            let half = half_of(bits) as u16;
            let unit = pow2((half_exponent(half) + 124) as nat);
            let size = scaled_value(magnitude(bits));
            half_scaled_size(half) <= size < half_scaled_size(half) + unit
        }),
{
    let e = exponent(bits);
    let f = fraction(bits) as int;
    let half = half_of(bits) as u16;
    assert(0 <= f / 0x2000 < 0x400);
    assert(half_exponent(half) == e - 112);
    assert(half_fraction(half) == f / 0x2000);
    assert(exponent(magnitude(bits)) == e);
    assert(fraction(magnitude(bits)) == f);
    let p = pow2((e - 1) as nat) as int;
    lemma_pow2_pos((e - 1) as nat);
    lemma_pow2_adds((e - 1) as nat, 13);
    vstd::arithmetic::power2::lemma2_to64();
    let q = f / 0x2000;
    let unit = pow2((half_exponent(half) + 124) as nat) as int;
    assert(unit == p * 0x2000);
    assert((0x400 + q) * unit == (0x80_0000 + q * 0x2000) * p) by (nonlinear_arith)
        requires
            unit == p * 0x2000,
    ;
    assert((0x80_0000 + q * 0x2000) * p <= (0x80_0000 + f) * p) by (nonlinear_arith)
        requires
            q * 0x2000 <= f,
            p > 0,
    ;
    assert((0x80_0000 + f) * p < (0x80_0000 + q * 0x2000) * p + p * 0x2000) by (nonlinear_arith)
        requires
            f < q * 0x2000 + 0x2000,
            p > 0,
    ;
}

/// Whether the bits are those of the non-negative number whose value is `n`.
pub open spec fn holds_count(bits: u32, n: int) -> bool {
    !negative(bits) && is_finite(bits) && scaled_value(bits) == n * pow2(149)
}

/// The bits of the number whose value is `n`.
pub open spec fn single_number(n: int) -> u32 {
    choose|bits: u32| holds_count(bits, n)
}

/// At most one bit pattern stands for a count.
pub proof fn counts_have_one_pattern(a: u32, b: u32, n: int)
    requires
        holds_count(a, n),
        holds_count(b, n),
    ensures
        a == b,
{
    if a < b {
        lemma_size_grows(a, b);
    } else if b < a {
        lemma_size_grows(b, a);
    }
}

/// The single-precision number whose value is `n`. Every count below two to the
/// power of 24 has one.
pub fn f32_of_count(n: u32) -> (bits: u32)
    requires
        n < 0x100_0000,
    ensures
        holds_count(bits, n as int),
        bits == single_number(n as int),
{
    if n == 0 {
        assert(holds_count(0, 0)) by {
            assert(0 * pow2(149) == 0);
        }
        proof {
            counts_have_one_pattern(0, single_number(0), 0);
        }
        return 0;
    }
    let mut shifted: u32 = n;
    let mut places: u32 = 0;
    proof {
        vstd::arithmetic::power2::lemma2_to64();
    }
    assert(shifted == n * pow2(0));
    while shifted < 0x80_0000
        invariant
            0 < n <= shifted < 0x100_0000,
            places <= 23,
            shifted == n * pow2(places as nat),
        decreases 0x100_0000 - shifted,
    {
        proof {
            lemma_pow2_adds(places as nat, 1);
            vstd::arithmetic::power2::lemma2_to64();
            let p = pow2(places as nat) as int;
            assert(n * (p * 2) == (n * p) * 2) by (nonlinear_arith);
            assert(n * p >= p) by (nonlinear_arith)
                requires
                    n >= 1,
                    p > 0,
            ;
            if places == 23 {
                assert(pow2(23) == 0x80_0000);
            }
        }
        shifted = shifted * 2;
        places += 1;
    }
    let bits: u32 = (150 - places) * 0x80_0000 + (shifted - 0x80_0000);
    proof {
        assert(magnitude(bits) == bits);
        assert(exponent(bits) == 150 - places);
        assert(fraction(bits) == shifted - 0x80_0000);
        let (p, q) = (pow2(places as nat) as int, pow2((149 - places) as nat) as int);
        lemma_pow2_adds(places as nat, (149 - places) as nat);
        assert(n * (p * q) == (n * p) * q) by (nonlinear_arith);
        assert(holds_count(bits, n as int));
        counts_have_one_pattern(bits, single_number(n as int), n as int);
    }
    bits
}

/// The conversion to half precision keeps the sign. What is smaller than the smallest
/// number with a full fraction (two to the power of minus 14) becomes a zero, and what
/// is at least two to the power of 16, or not a number, an infinity.
pub proof fn half_keeps_the_sign_and_the_range(bits: u32)
    ensures
        0 <= half_of(bits) <= u16::MAX,
        half_of(bits) >= 0x8000 <==> negative(bits),
        is_finite(bits) && scaled_value(magnitude(bits)) < pow2(135) ==> half_of(bits) % 0x8000
            == 0,
        !is_finite(bits) || scaled_value(magnitude(bits)) >= pow2(165) ==> half_of(bits) % 0x8000
            == 0x7C00,
        is_finite(bits) && pow2(135) <= scaled_value(magnitude(bits)) < pow2(165) ==> 0x400
            <= half_of(bits) % 0x8000 < 0x7C00,
{
    let m = magnitude(bits);
    assert(exponent(m) == exponent(bits) && fraction(m) == fraction(bits) && magnitude(m) == m);
    if is_finite(bits) {
        let small: u32 = 0x3880_0000;
        let large: u32 = 0x4780_0000;
        assert(exponent(small) == 113 && fraction(small) == 0);
        assert(exponent(large) == 143 && fraction(large) == 0);
        vstd::arithmetic::power2::lemma2_to64();
        lemma_pow2_adds(23, 112);
        lemma_pow2_adds(23, 142);
        assert(scaled_value(small) == pow2(135));
        assert(scaled_value(large) == pow2(165));
        if m < small {
            lemma_size_grows(m, small);
        } else if small < m {
            lemma_size_grows(small, m);
        }
        if m < large {
            lemma_size_grows(m, large);
        } else if large < m {
            lemma_size_grows(large, m);
        }
    }
}

/// Widening keeps the sign and, of a number that is neither a zero nor an infinity nor
/// a NaN, the value: one and the fraction, times two to the power of the exponent.
pub proof fn widening_keeps_the_value(half: u16)
    ensures
        0 <= single_of(half) <= u32::MAX,
        half_exponent(half) == 31 && half_fraction(half) != 0 ==> is_nan(single_of(half) as u32),
        half_exponent(half) == 31 && half_fraction(half) == 0 ==> is_infinite(
            single_of(half) as u32,
        ),
        half as int % 0x8000 == 0 ==> scaled_value(single_of(half) as u32) == 0,
        !is_nan(single_of(half) as u32) ==> (negative(single_of(half) as u32) <==> half >= 0x8000),
        half as int % 0x8000 != 0 && half_exponent(half) < 31 ==> scaled_value(
            magnitude(single_of(half) as u32),
        ) == half_scaled_size(half),
{
    let bits = single_of(half) as u32;
    let e = half_exponent(half);
    let f = half_fraction(half);
    assert(0 <= e <= 31 && 0 <= f < 0x400);
    assert(half as int % 0x8000 == e * 0x400 + f);
    if half as int % 0x8000 != 0 && e < 31 {
        let rest = (e + 112) * 0x80_0000 + f * 0x2000;
        assert(magnitude(bits) == rest);
        let m = magnitude(bits);
        assert(exponent(m) == e + 112);
        assert(fraction(m) == f * 0x2000);
        let p = pow2((e + 111) as nat) as int;
        lemma_pow2_adds((e + 111) as nat, 13);
        vstd::arithmetic::power2::lemma2_to64();
        assert(pow2((e + 124) as nat) == p * 0x2000);
        assert((0x80_0000 + f * 0x2000) * p == (0x400 + f) * (p * 0x2000)) by (nonlinear_arith);
    }
}

/// What half precision made of a number it leaves as it is the next time.
pub proof fn rounding_twice_changes_nothing(bits: u32)
    ensures
        ({
            let once = single_of(half_of(bits) as u16) as u32;
            half_of(once) == half_of(bits) && single_of(half_of(once) as u16) as u32 == once
        }),
{
    half_keeps_the_sign_and_the_range(bits);
    let half = half_of(bits) as u16;
    assert(half_exponent(half) == 0 ==> half_fraction(half) == 0);
    assert(half_exponent(half) == 31 ==> half_fraction(half) == 0);
    half_survives_widening(half);
}

/// The thresholds are the numbers that they are named after.
pub proof fn thresholds_have_their_values()
    ensures
        holds_count(F32_THOUSAND, 1000),
        holds_count(F32_HALF_MAX, 65504),
        is_infinite(F32_INFINITY) && !negative(F32_INFINITY),
        is_nan(F32_NAN),
{
    vstd::arithmetic::power2::lemma2_to64();
    lemma_pow2_adds(14, 135);
    lemma_pow2_adds(8, 141);
    lemma_pow2_adds(141, 8);
    assert(exponent(F32_THOUSAND) == 136 && fraction(F32_THOUSAND) == 0x7A_0000);
    assert(exponent(F32_HALF_MAX) == 142 && fraction(F32_HALF_MAX) == 0x7F_E000);
    let (p, q) = (pow2(135) as int, pow2(141) as int);
    assert((0x80_0000 + 0x7A_0000) * p == 1000 * (0x4000 * p)) by (nonlinear_arith);
    assert((0x80_0000 + 0x7F_E000) * q == 65504 * (0x100 * q)) by (nonlinear_arith);
}

/// In double precision the infinity has the largest exponent and no fraction; with a
/// fraction it is not a number, and every smaller exponent is that of a finite number.
pub proof fn largest_exponent64_is_not_finite(bits: u64)
    ensures
        is_finite64(bits) <==> exponent64(bits) < 2047,
        is_nan64(bits) <==> exponent64(bits) == 2047 && fraction64(bits) != 0,
        exponent64(F64_INFINITY) == 2047 && fraction64(F64_INFINITY) == 0 && !negative64(
            F64_INFINITY,
        ),
{
}

/// So it is in single precision.
pub proof fn largest_exponent_is_not_finite(bits: u32)
    ensures
        is_finite(bits) <==> exponent(bits) < 255,
        is_infinite(bits) <==> exponent(bits) == 255 && fraction(bits) == 0,
        is_nan(bits) <==> exponent(bits) == 255 && fraction(bits) != 0,
        exponent(F32_INFINITY) == 255 && fraction(F32_INFINITY) == 0 && !negative(F32_INFINITY),
{
}

} // verus!
