//! Narrowing of double-precision numbers to single precision, on IEEE 754 bit patterns.

use vstd::arithmetic::power2;
use vstd::prelude::*;

verus! {

/// The bit pattern of single-precision infinity.
pub const SINGLE_INFINITY: u32 = 0x7f80_0000;

/// The bit pattern of double-precision infinity.
pub const DOUBLE_INFINITY: u64 = 0x7ff0_0000_0000_0000;

/// The magnitude of the single-precision number with the bit pattern `a`, counted in its
/// smallest positive number. The pattern of infinity stands for the first number that is too
/// large.
pub open spec fn single_magnitude(a: nat) -> nat {
    let exponent = a / 0x80_0000;
    let fraction = a % 0x80_0000;
    if exponent == 0 {
        fraction
    } else {
        (0x80_0000 + fraction) * power2::pow2((exponent - 1) as nat)
    }
}

/// The magnitude of the double-precision number with the bit pattern `b`, counted in its
/// smallest positive number.
pub open spec fn double_magnitude(b: nat) -> nat {
    let exponent = b / 0x10_0000_0000_0000;
    let fraction = b % 0x10_0000_0000_0000;
    if exponent == 0 {
        fraction
    } else {
        (0x10_0000_0000_0000 + fraction) * power2::pow2((exponent - 1) as nat)
    }
}

/// How far the single-precision number `a` is from `magnitude`, which is counted in the smallest
/// positive double-precision number; the smallest positive single-precision number is 2^925 of
/// them.
pub open spec fn distance(a: nat, magnitude: nat) -> nat {
    let x = single_magnitude(a) * power2::pow2(925);
    if x <= magnitude {
        (magnitude - x) as nat
    } else {
        (x - magnitude) as nat
    }
}

/// `a` is the single-precision number nearest to `magnitude`; of two at the same distance it is
/// the even one.
pub open spec fn is_nearest(a: nat, magnitude: nat) -> bool {
    &&& a <= SINGLE_INFINITY
    &&& forall|c: nat|
        c <= SINGLE_INFINITY && c != a ==> distance(a, magnitude) < #[trigger] distance(
            c,
            magnitude,
        ) || (distance(a, magnitude) == distance(c, magnitude) && a % 2 == 0)
}

/// `a` is the pattern, without the sign, that the pattern `b`, without the sign, is narrowed to:
/// infinity stays infinity, not-a-number stays such with the upper bits of its payload and
/// becomes quiet, and any other number becomes the nearest one.
pub open spec fn narrows_to(b: nat, a: nat) -> bool {
    if b > DOUBLE_INFINITY {
        let payload = b % 0x10_0000_0000_0000 / 0x2000_0000;
        a == SINGLE_INFINITY + if payload < 0x40_0000 {
            payload + 0x40_0000
        } else {
            payload
        }
    } else if b == DOUBLE_INFINITY {
        a == SINGLE_INFINITY
    } else {
        is_nearest(a, double_magnitude(b))
    }
}

/// The single-precision bit pattern that the double-precision bit pattern `bits` is narrowed to.
pub open spec fn narrowed(bits: u64) -> u32 {
    let sign = bits / 0x8000_0000_0000_0000;
    let b = (bits % 0x8000_0000_0000_0000) as nat;
    (sign * 0x8000_0000 + choose|a: nat| narrows_to(b, a)) as u32
}

/// A larger pattern is a larger number.
proof fn lemma_single_ascends(a: nat, c: nat)
    requires
        a < c,
    ensures
        single_magnitude(a) < single_magnitude(c),
    decreases c - a,
{
    if a + 1 < c {
        lemma_single_ascends(a, (c - 1) as nat);
    }
    let d = (c - 1) as nat;
    let e = d / 0x80_0000;
    let f = d % 0x80_0000;
    if e > 0 {
        let p = power2::pow2((e - 1) as nat);
        power2::lemma_pow2_pos((e - 1) as nat);
        power2::lemma_pow2_unfold(e);
        assert((0x80_0000 + f) * p < (0x80_0000 + f + 1) * p) by (nonlinear_arith)
            requires
                p > 0,
        ;
        if f == 0x7f_ffff {
            assert(c / 0x80_0000 == e + 1 && c % 0x80_0000 == 0);
            assert((0x80_0000 + f + 1) * p == 0x80_0000 * (2 * p)) by (nonlinear_arith)
                requires
                    f == 0x7f_ffff,
            ;
        } else {
            assert(c / 0x80_0000 == e && c % 0x80_0000 == f + 1);
        }
    } else if f == 0x7f_ffff {
        assert(c == 0x80_0000);
        power2::lemma2_to64();
    } else {
        assert(c / 0x80_0000 == 0);
    }
}

/// A larger pattern is a larger number, counted in double precision too.
proof fn lemma_scaled_ascends(a: nat, c: nat)
    requires
        a < c,
    ensures
        single_magnitude(a) * power2::pow2(925) < single_magnitude(c) * power2::pow2(925),
{
    lemma_single_ascends(a, c);
    power2::lemma_pow2_pos(925);
    let (x, y, k) = (single_magnitude(a), single_magnitude(c), power2::pow2(925));
    assert(x * k < y * k) by (nonlinear_arith)
        requires
            x < y,
            k > 0,
    ;
}

/// Between two neighbours the nearer one is the nearest number.
proof fn lemma_nearer_neighbour(a: nat, r: nat, magnitude: nat)
    requires
        a < SINGLE_INFINITY,
        single_magnitude(a) * power2::pow2(925) <= magnitude <= single_magnitude(a + 1)
            * power2::pow2(925),
        r == a || r == a + 1,
        r == a ==> distance(a, magnitude) <= distance(a + 1, magnitude),
        r == a + 1 ==> distance(a + 1, magnitude) <= distance(a, magnitude),
        distance(a, magnitude) == distance(a + 1, magnitude) ==> r % 2 == 0,
    ensures
        is_nearest(r, magnitude),
{
    assert forall|c: nat| c <= SINGLE_INFINITY && c != r implies distance(r, magnitude)
        < #[trigger] distance(c, magnitude) || (distance(r, magnitude) == distance(c, magnitude)
        && r % 2 == 0) by {
        if c < a {
            lemma_scaled_ascends(c, a);
        } else if c > a + 1 {
            lemma_scaled_ascends(a + 1, c);
        }
    }
}

/// A number from the first one on that is too large is nearest to infinity.
proof fn lemma_too_large(magnitude: nat)
    requires
        single_magnitude(SINGLE_INFINITY as nat) * power2::pow2(925) <= magnitude,
    ensures
        is_nearest(SINGLE_INFINITY as nat, magnitude),
{
    let r = SINGLE_INFINITY as nat;
    assert forall|c: nat| c <= SINGLE_INFINITY && c != r implies distance(r, magnitude)
        < #[trigger] distance(c, magnitude) || (distance(r, magnitude) == distance(c, magnitude)
        && r % 2 == 0) by {
        lemma_scaled_ascends(c, r);
    }
}

/// There is one nearest number at most.
proof fn lemma_nearest_unique(a: nat, c: nat, magnitude: nat)
    requires
        is_nearest(a, magnitude),
        is_nearest(c, magnitude),
    ensures
        a == c,
{
    lemma_nearest_not_below(a, c, magnitude);
    lemma_nearest_not_below(c, a, magnitude);
}

proof fn lemma_nearest_not_below(a: nat, c: nat, magnitude: nat)
    requires
        is_nearest(a, magnitude),
        is_nearest(c, magnitude),
    ensures
        a >= c,
{
    if a < c {
        assert(distance(a, magnitude) <= distance(c, magnitude));
        assert(distance(c, magnitude) <= distance(a, magnitude));
        assert(a % 2 == 0 && c % 2 == 0);
        lemma_scaled_ascends(a, a + 1);
        lemma_scaled_ascends(a + 1, c);
        assert(distance(a, magnitude) <= distance(a + 1, magnitude));
    }
}

/// What a number is narrowed to is determined.
proof fn lemma_narrowed(b: nat, a: nat)
    requires
        narrows_to(b, a),
    ensures
        forall|c: nat| #[trigger] narrows_to(b, c) ==> c == a,
{
    assert forall|c: nat| #[trigger] narrows_to(b, c) implies c == a by {
        if b < DOUBLE_INFINITY {
            lemma_nearest_unique(a, c, double_magnitude(b));
        }
    }
}

/// A pattern that a number is narrowed to is the only one: it is what `narrowed` gives, with the
/// sign of the number.
pub proof fn law_narrowed_is_determined(bits: u64, a: nat)
    requires
        narrows_to((bits % 0x8000_0000_0000_0000) as nat, a),
    ensures
        narrowed(bits) == bits / 0x8000_0000_0000_0000 * 0x8000_0000 + a,
{
    let b = (bits % 0x8000_0000_0000_0000) as nat;
    lemma_narrowed(b, a);
    let c = choose|c: nat| narrows_to(b, c);
    assert(narrows_to(b, c));
    assert(a < 0x8000_0000);
}

/// A number that lies between `q` and `q + 1` times `step * unit` is nearest to the one that the
/// remainder `rem` decides for.
proof fn lemma_round(a: nat, q: nat, step: nat, rem: nat, unit: nat, magnitude: nat, r: nat)
    requires
        a < SINGLE_INFINITY,
        unit > 0,
        rem < step,
        magnitude == (q * step + rem) * unit,
        single_magnitude(a) * power2::pow2(925) == q * step * unit,
        single_magnitude(a + 1) * power2::pow2(925) == (q + 1) * step * unit,
        r == if 2 * rem > step || (2 * rem == step && a % 2 == 1) {
            a + 1
        } else {
            a
        },
    ensures
        is_nearest(r, magnitude),
{
    let low = q * step * unit;
    let high = (q + 1) * step * unit;
    assert(magnitude == low + rem * unit) by (nonlinear_arith)
        requires
            magnitude == (q * step + rem) * unit,
            low == q * step * unit,
    ;
    assert(high == low + step * unit) by (nonlinear_arith)
        requires
            high == (q + 1) * step * unit,
            low == q * step * unit,
    ;
    let (x, y) = (rem * unit, step * unit);
    assert(x < y && (2 * rem > step ==> 2 * x > y) && (2 * rem == step ==> 2 * x == y) && (2 * rem
        < step ==> 2 * x < y)) by (nonlinear_arith)
        requires
            x == rem * unit,
            y == step * unit,
            rem < step,
            unit > 0,
    ;
    lemma_nearer_neighbour(a, r, magnitude);
}

/// Numbers from 2^128 on become infinity.
proof fn lemma_far_above(exponent: nat, fraction: nat)
    requires
        1151 <= exponent,
    ensures
        is_nearest(
            SINGLE_INFINITY as nat,
            (0x10_0000_0000_0000 + fraction) * power2::pow2((exponent - 1) as nat),
        ),
{
    let unit = power2::pow2((exponent - 1) as nat);
    power2::lemma2_to64();
    power2::lemma2_to64_rest();
    power2::lemma_pow2_adds(23, 254);
    power2::lemma_pow2_adds(277, 925);
    power2::lemma_pow2_adds(52, (exponent - 1) as nat);
    if exponent > 1151 {
        power2::lemma_pow2_strictly_increases(1202, (51 + exponent) as nat);
    }
    assert((0x10_0000_0000_0000 + fraction) * unit >= 0x10_0000_0000_0000 * unit)
        by (nonlinear_arith);
    lemma_too_large((0x10_0000_0000_0000 + fraction) * unit);
}

/// Numbers of the normal range of single precision lose the lower bits of their fraction.
proof fn lemma_normal(exponent: nat, fraction: nat, r: nat)
    requires
        897 <= exponent < 1151,
        fraction < 0x10_0000_0000_0000,
        ({
            let a = ((exponent - 896) * 0x80_0000 + fraction / 0x2000_0000) as nat;
            let rem = fraction % 0x2000_0000;
            r == if 2 * rem > 0x2000_0000 || (2 * rem == 0x2000_0000 && a % 2 == 1) {
                a + 1
            } else {
                a
            }
        }),
    ensures
        is_nearest(
            r,
            (0x10_0000_0000_0000 + fraction) * power2::pow2((exponent - 1) as nat),
        ),
{
    let unit = power2::pow2((exponent - 1) as nat);
    let e = (exponent - 896) as nat;
    let k = power2::pow2(925);
    let p = power2::pow2((e - 1) as nat);
    let part = fraction / 0x2000_0000;
    let rem = fraction % 0x2000_0000;
    let a = e * 0x80_0000 + part;
    let q = 0x80_0000 + part;
    power2::lemma2_to64();
    power2::lemma_pow2_adds((e - 1) as nat, 925);
    power2::lemma_pow2_adds(29, (exponent - 1) as nat);
    power2::lemma_pow2_unfold(e);
    power2::lemma_pow2_pos((exponent - 1) as nat);
    assert(p * k == 0x2000_0000 * unit);
    assert(a / 0x80_0000 == e && a % 0x80_0000 == part);
    assert(single_magnitude(a) == q * p);
    assert(single_magnitude(a + 1) == (q + 1) * p) by {
        if part == 0x7f_ffff {
            assert((a + 1) / 0x80_0000 == e + 1 && (a + 1) % 0x80_0000 == 0);
            assert((q + 1) * p == 0x80_0000 * (2 * p)) by (nonlinear_arith)
                requires
                    q + 1 == 0x100_0000,
            ;
        } else {
            assert((a + 1) / 0x80_0000 == e && (a + 1) % 0x80_0000 == part + 1);
            assert(0x80_0000 + (part + 1) == q + 1);
        }
    }
    assert(q * p * k == q * 0x2000_0000 * unit) by (nonlinear_arith)
        requires
            p * k == 0x2000_0000 * unit,
    ;
    assert((q + 1) * p * k == (q + 1) * 0x2000_0000 * unit) by (nonlinear_arith)
        requires
            p * k == 0x2000_0000 * unit,
    ;
    lemma_round(
        a,
        q,
        0x2000_0000,
        rem,
        unit,
        (0x10_0000_0000_0000 + fraction) * unit,
        r,
    );
}

/// Numbers below the normal range of single precision become a multiple of its smallest number.
proof fn lemma_subnormal(exponent: nat, fraction: nat, r: nat)
    requires
        873 <= exponent < 897,
        fraction < 0x10_0000_0000_0000,
        ({
            let m = 0x10_0000_0000_0000 + fraction;
            let step = power2::pow2((926 - exponent) as nat);
            let (q, rem) = (m / step, m % step);
            r == if 2 * rem > step || (2 * rem == step && q % 2 == 1) {
                q + 1
            } else {
                q
            }
        }),
    ensures
        is_nearest(
            r,
            (0x10_0000_0000_0000 + fraction) * power2::pow2((exponent - 1) as nat),
        ),
{
    let unit = power2::pow2((exponent - 1) as nat);
    let m = 0x10_0000_0000_0000 + fraction;
    let step = power2::pow2((926 - exponent) as nat);
    let (q, rem) = (m / step, m % step);
    power2::lemma2_to64();
    power2::lemma_pow2_strictly_increases(29, (926 - exponent) as nat);
    power2::lemma_pow2_unfold(30);
    if exponent < 896 {
        power2::lemma_pow2_strictly_increases(30, (926 - exponent) as nat);
    }
    power2::lemma_pow2_adds((926 - exponent) as nat, (exponent - 1) as nat);
    power2::lemma_pow2_pos((exponent - 1) as nat);
    lemma_small_quotient(m, step);
    assert(m == q * step + rem) by (nonlinear_arith)
        requires
            q == m / step,
            rem == m % step,
            step > 0,
    ;
    assert(single_magnitude(q) == q);
    assert(single_magnitude(q + 1) == q + 1) by {
        if q + 1 == 0x80_0000 {
            assert(single_magnitude(0x80_0000) == 0x80_0000 * power2::pow2(0));
            assert(power2::pow2(0) == 1);
        } else {
            assert((q + 1) / 0x80_0000 == 0);
        }
    }
    assert(q * (step * unit) == q * step * unit) by (nonlinear_arith);
    assert((q + 1) * (step * unit) == (q + 1) * step * unit) by (nonlinear_arith);
    lemma_round(q, q, step, rem, unit, m * unit, r);
}

/// Half of what the smallest numbers of single precision differ by is the limit below which a
/// number becomes zero.
proof fn lemma_far_below(exponent: nat, fraction: nat)
    requires
        exponent < 873,
        fraction < 0x10_0000_0000_0000,
    ensures
        is_nearest(
            0,
            if exponent == 0 {
                fraction
            } else {
                (0x10_0000_0000_0000 + fraction) * power2::pow2((exponent - 1) as nat)
            },
        ),
{
    power2::lemma2_to64();
    power2::lemma2_to64_rest();
    power2::lemma_pow2_unfold(925);
    let magnitude = if exponent == 0 {
        fraction
    } else {
        (0x10_0000_0000_0000 + fraction) * power2::pow2((exponent - 1) as nat)
    };
    if exponent == 0 {
        power2::lemma_pow2_strictly_increases(52, 924);
    } else {
        let unit = power2::pow2((exponent - 1) as nat);
        power2::lemma_pow2_pos((exponent - 1) as nat);
        power2::lemma_pow2_adds(53, (exponent - 1) as nat);
        if exponent < 872 {
            power2::lemma_pow2_strictly_increases((52 + exponent) as nat, 924);
        }
        assert((0x10_0000_0000_0000 + fraction) * unit < 0x20_0000_0000_0000 * unit)
            by (nonlinear_arith)
            requires
                fraction < 0x10_0000_0000_0000,
                unit > 0,
        ;
    }
    assert(magnitude < power2::pow2(924));
    assert(single_magnitude(0) == 0 && single_magnitude(1) == 1);
    let k = power2::pow2(925);
    assert(0 * k == 0 && 1 * k == k) by (nonlinear_arith);
    lemma_nearer_neighbour(0, 0, magnitude);
}

/// A 53-bit number divided by 2^30 or more has 23 bits at most.
proof fn lemma_small_quotient(m: nat, step: nat)
    by (nonlinear_arith)
    requires
        m < 0x20_0000_0000_0000,
        step >= 0x4000_0000,
    ensures
        m / step < 0x80_0000,
{
}

/// A number that single precision has is kept.
pub proof fn law_exact_numbers_are_kept(b: nat, a: nat)
    requires
        a < SINGLE_INFINITY,
        b < DOUBLE_INFINITY,
        single_magnitude(a) * power2::pow2(925) == double_magnitude(b),
    ensures
        narrows_to(b, a),
{
    assert forall|c: nat| c <= SINGLE_INFINITY && c != a implies distance(a, double_magnitude(b))
        < #[trigger] distance(c, double_magnitude(b)) by {
        if c < a {
            lemma_scaled_ascends(c, a);
        } else {
            lemma_scaled_ascends(a, c);
        }
    }
}

/// A number of at least 2^-126 and below 2^128 keeps its sign and its exponent. Of its fraction
/// the upper 23 bits are kept, and one is added where the lower 29 are more than half of what
/// they can be, or are exactly half and the result is odd without.
pub proof fn law_normal_numbers(bits: u64)
    requires
        897 <= bits / 0x10_0000_0000_0000 % 0x800 < 1151,
    ensures
        ({
            let sign = bits / 0x8000_0000_0000_0000;
            let exponent = bits / 0x10_0000_0000_0000 % 0x800;
            let fraction = bits % 0x10_0000_0000_0000;
            let (upper, lower) = (fraction / 0x2000_0000, fraction % 0x2000_0000);
            let up = lower > 0x1000_0000 || (lower == 0x1000_0000 && upper % 2 == 1);
            narrowed(bits) == sign * 0x8000_0000 + (exponent - 896) * 0x80_0000 + upper + if up {
                1int
            } else {
                0
            }
        }),
{
    let b = bits % 0x8000_0000_0000_0000;
    let exponent = b / 0x10_0000_0000_0000;
    let fraction = b % 0x10_0000_0000_0000;
    assert(exponent == bits / 0x10_0000_0000_0000 % 0x800);
    assert(fraction == bits % 0x10_0000_0000_0000);
    let (upper, lower) = (fraction / 0x2000_0000, fraction % 0x2000_0000);
    let a = ((exponent - 896) * 0x80_0000 + upper) as nat;
    assert(a % 2 == upper % 2);
    let r = if 2 * lower > 0x2000_0000 || (2 * lower == 0x2000_0000 && a % 2 == 1) {
        a + 1
    } else {
        a
    };
    lemma_normal(exponent as nat, fraction as nat, r);
    law_narrowed_is_determined(bits, r);
}

/// A number below 2^-126 and from 2^-150 on becomes a multiple of 2^-149: the whole number of
/// times that it holds 2^-149, or one more where the rest is more than half, or is exactly half
/// and that number is odd.
pub proof fn law_subnormal_numbers(bits: u64, q: nat, rem: nat)
    requires
        873 <= bits / 0x10_0000_0000_0000 % 0x800 < 897,
        ({
            let exponent = bits / 0x10_0000_0000_0000 % 0x800;
            let step = power2::pow2((926 - exponent) as nat);
            q * step + rem == 0x10_0000_0000_0000 + bits % 0x10_0000_0000_0000 && rem < step
        }),
    ensures
        ({
            let sign = bits / 0x8000_0000_0000_0000;
            let exponent = bits / 0x10_0000_0000_0000 % 0x800;
            let step = power2::pow2((926 - exponent) as nat);
            let up = 2 * rem > step || (2 * rem == step && q % 2 == 1);
            narrowed(bits) == sign * 0x8000_0000 + q + if up {
                1int
            } else {
                0
            }
        }),
{
    let b = bits % 0x8000_0000_0000_0000;
    let exponent = (b / 0x10_0000_0000_0000) as nat;
    let fraction = (b % 0x10_0000_0000_0000) as nat;
    assert(exponent == bits / 0x10_0000_0000_0000 % 0x800);
    assert(fraction == bits % 0x10_0000_0000_0000);
    let step = power2::pow2((926 - exponent) as nat);
    let m = 0x10_0000_0000_0000 + fraction;
    vstd::arithmetic::div_mod::lemma_fundamental_div_mod_converse(
        m as int,
        step as int,
        q as int,
        rem as int,
    );
    let r = if 2 * rem > step || (2 * rem == step && q % 2 == 1) {
        q + 1
    } else {
        q
    };
    lemma_subnormal(exponent, fraction, r);
    law_narrowed_is_determined(bits, r);
}

/// A number below 2^-150 becomes zero, one from 2^128 on infinity, infinity stays infinity, each
/// with its sign, and what is no number stays no number.
pub proof fn law_numbers_out_of_range(bits: u64)
    ensures
        ({
            let sign = bits / 0x8000_0000_0000_0000;
            let exponent = bits / 0x10_0000_0000_0000 % 0x800;
            let fraction = bits % 0x10_0000_0000_0000;
            &&& exponent < 873 ==> narrowed(bits) == sign * 0x8000_0000
            &&& 1151 <= exponent && (exponent < 2047 || fraction == 0) ==> narrowed(bits) == sign
                * 0x8000_0000 + 0x7f80_0000
            &&& exponent == 2047 && fraction > 0 ==> sign * 0x8000_0000 + 0x7f80_0000 < narrowed(
                bits,
            ) < (sign + 1) * 0x8000_0000
        }),
{
    let b = bits % 0x8000_0000_0000_0000;
    let exponent = (b / 0x10_0000_0000_0000) as nat;
    let fraction = (b % 0x10_0000_0000_0000) as nat;
    assert(exponent == bits / 0x10_0000_0000_0000 % 0x800);
    assert(fraction == bits % 0x10_0000_0000_0000);
    if exponent < 873 {
        lemma_far_below(exponent, fraction);
        law_narrowed_is_determined(bits, 0);
    } else if 1151 <= exponent && exponent < 2047 {
        lemma_far_above(exponent, fraction);
        law_narrowed_is_determined(bits, SINGLE_INFINITY as nat);
    } else if exponent == 2047 {
        let payload = fraction / 0x2000_0000;
        let a = if fraction == 0 {
            SINGLE_INFINITY as nat
        } else {
            SINGLE_INFINITY as nat + if payload < 0x40_0000 {
                payload + 0x40_0000
            } else {
                payload
            }
        };
        law_narrowed_is_determined(bits, a);
    }
}

/// The bit pattern of the single-precision number that the double-precision number with the bit
/// pattern `bits` is rounded to.
pub fn narrow(bits: u64) -> (r: u32)
    ensures
        r == narrowed(bits),
        narrows_to((bits % 0x8000_0000_0000_0000) as nat, (r % 0x8000_0000) as nat),
        r / 0x8000_0000 == bits / 0x8000_0000_0000_0000,
{
    let b: u64 = bits % 0x8000_0000_0000_0000;
    let a: u32 = narrow_magnitude(b);
    proof {
        lemma_narrowed(b as nat, a as nat);
        assert(narrows_to(b as nat, a as nat));
    }
    if bits >= 0x8000_0000_0000_0000 {
        0x8000_0000 + a
    } else {
        a
    }
}

/// Narrows a pattern whose sign bit is clear.
fn narrow_magnitude(b: u64) -> (a: u32)
    requires
        b < 0x8000_0000_0000_0000,
    ensures
        a < 0x8000_0000,
        narrows_to(b as nat, a as nat),
{
    let exponent: u64 = b / 0x10_0000_0000_0000;
    let fraction: u64 = b % 0x10_0000_0000_0000;
    if b > DOUBLE_INFINITY {
        let payload: u32 = (fraction / 0x2000_0000) as u32;
        return SINGLE_INFINITY + if payload < 0x40_0000 {
            payload + 0x40_0000
        } else {
            payload
        };
    }
    if b == DOUBLE_INFINITY {
        return SINGLE_INFINITY;
    }
    if exponent >= 1151 {
        proof {
            lemma_far_above(exponent as nat, fraction as nat);
        }
        SINGLE_INFINITY
    } else if exponent >= 897 {
        let e: u64 = exponent - 896;
        let q: u64 = fraction / 0x2000_0000;
        let rem: u64 = fraction % 0x2000_0000;
        let a: u32 = (e * 0x80_0000 + q) as u32;
        let r: u32 = if rem > 0x1000_0000 || (rem == 0x1000_0000 && a % 2 == 1) {
            a + 1
        } else {
            a
        };
        proof {
            lemma_normal(exponent as nat, fraction as nat, r as nat);
        }
        r
    } else if exponent >= 873 {
        let shift: u64 = 926 - exponent;
        let m: u64 = 0x10_0000_0000_0000 + fraction;
        proof {
            power2::lemma2_to64();
            power2::lemma2_to64_rest();
            vstd::bits::lemma_u64_shl_is_mul(1, shift);
            power2::lemma_pow2_strictly_increases(29, shift as nat);
            power2::lemma_pow2_strictly_increases(shift as nat, 54);
        }
        let step: u64 = 1u64 << shift;
        let q: u64 = m / step;
        let rem: u64 = m % step;
        proof {
            lemma_small_quotient(m as nat, step as nat);
        }
        let a: u32 = q as u32;
        let r: u32 = if rem > step - rem || (rem == step - rem && a % 2 == 1) {
            a + 1
        } else {
            a
        };
        proof {
            lemma_subnormal(exponent as nat, fraction as nat, r as nat);
        }
        r
    } else {
        proof {
            lemma_far_below(exponent as nat, fraction as nat);
        }
        0
    }
}

} // verus!
