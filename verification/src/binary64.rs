//! Hundredths of IEEE 754 binary64 values, on bit patterns.
//!
//! A finite binary64 value is a whole number of units of two to the power
//! -1074, so everything here is stated and computed over integers.

use vstd::arithmetic::power2::*;
use vstd::prelude::*;

verus! {

/// The sign bit. The pattern with this bit alone is negative zero.
pub const SIGN: u64 = 0x8000_0000_0000_0000;

/// The pattern of positive infinity; non-negative finite patterns lie below it.
pub const INFINITY: u64 = 0x7ff0_0000_0000_0000;

/// The pattern of 1.
pub const ONE: u64 = 0x3ff0_0000_0000_0000;

/// The pattern of 100.
pub const HUNDRED: u64 = 0x4059_0000_0000_0000;

/// Two to the power 52: the weight of the exponent field.
pub const STEP: u64 = 0x10_0000_0000_0000;

/// The value of a non-negative finite pattern, in units of two to the power
/// -1074.
pub open spec fn units(bits: int) -> int {
    let exponent = bits / (STEP as int);
    let fraction = bits % (STEP as int);
    if exponent == 0 {
        fraction
    } else {
        (STEP + fraction) * pow2((exponent - 1) as nat)
    }
}

/// Whether a non-negative pattern is the binary64 value nearest to the quotient
/// `num / den`, given in units; of two equally near values, the one with an
/// even pattern.
pub open spec fn nearest(bits: int, num: int, den: int) -> bool {
    &&& 0 <= bits < INFINITY
    &&& bits > 0 ==> {
        ||| den * (units(bits - 1) + units(bits)) < 2 * num
        ||| den * (units(bits - 1) + units(bits)) == 2 * num && bits % 2 == 0
    }
    &&& {
        ||| 2 * num < den * (units(bits) + units(bits + 1))
        ||| 2 * num == den * (units(bits) + units(bits + 1)) && bits % 2 == 0
    }
}

/// A significand `q` at exponent `j` is the pattern `j * STEP + q`.
proof fn lemma_units(j: int, q: int)
    requires
        j >= 0,
        j == 0 && 0 <= q || STEP <= q,
        q <= 2 * STEP,
    ensures
        units(j * STEP + q) == q * pow2(j as nat),
{
    let bits = j * STEP + q;
    let p = pow2(j as nat) as int;
    if q < STEP {
        lemma_pow2(0);
        assert(pow2(0) == 1) by {
            lemma2_to64();
        }
        assert(bits / (STEP as int) == 0 && bits % (STEP as int) == q);
    } else if q < 2 * STEP {
        assert(bits / (STEP as int) == j + 1 && bits % (STEP as int) == q - STEP);
    } else {
        assert(bits / (STEP as int) == j + 2 && bits % (STEP as int) == 0);
        lemma_pow2_unfold((j + 1) as nat);
        assert(STEP * (2 * p) == q * p) by (nonlinear_arith)
            requires
                q == 2 * STEP,
        ;
    }
}

/// A larger pattern is a larger value.
proof fn lemma_units_step(bits: int)
    requires
        0 <= bits,
    ensures
        0 <= units(bits) < units(bits + 1),
{
    let exponent = bits / (STEP as int);
    let fraction = bits % (STEP as int);
    let j = if exponent == 0 {
        0
    } else {
        exponent - 1
    };
    let q = bits - j * STEP;
    lemma_units(j, q);
    lemma_units(j, q + 1);
    lemma_pow2_pos(j as nat);
    let p = pow2(j as nat) as int;
    assert(0 <= q * p < (q + 1) * p) by (nonlinear_arith)
        requires
            q >= 0,
            p > 0,
    ;
}

/// Patterns are ordered as their values are.
pub proof fn lemma_units_increase(a: int, b: int)
    requires
        0 <= a < b,
    ensures
        0 <= units(a) < units(b),
    decreases b - a,
{
    lemma_units_step(b - 1);
    if a < b - 1 {
        lemma_units_increase(a, b - 1);
    } else {
        lemma_units_step(a);
    }
}

/// Only one value is nearest to a quotient.
pub proof fn lemma_nearest_unique(a: int, b: int, num: int, den: int)
    requires
        den > 0,
        nearest(a, num, den),
        nearest(b, num, den),
    ensures
        a == b,
{
    lemma_nearest_order(a, b, num, den);
    lemma_nearest_order(b, a, num, den);
}

proof fn lemma_nearest_order(a: int, b: int, num: int, den: int)
    requires
        den > 0,
        nearest(a, num, den),
        nearest(b, num, den),
    ensures
        a >= b,
{
    if a < b {
        lemma_units_step(a);
        if a + 1 < b {
            lemma_units_increase(a, b - 1);
            lemma_units_increase(a + 1, b);
        }
        let high = units(a) + units(a + 1);
        let low = units(b - 1) + units(b);
        assert(den * high <= den * low && (high < low ==> den * high < den * low))
            by (nonlinear_arith)
            requires
                den > 0,
                high <= low,
        ;
    }
}

/// 1 and 100 in units.
pub proof fn lemma_one_and_hundred()
    ensures
        units(ONE as int) == pow2(1074),
        units(HUNDRED as int) == 100 * pow2(1074),
{
    lemma2_to64();
    lemma2_to64_rest();
    assert(ONE == 1022 * STEP + STEP);
    lemma_units(1022, STEP as int);
    lemma_pow2_adds(52, 1022);
    assert(HUNDRED == 1028 * STEP + 0x19_0000_0000_0000);
    lemma_units(1028, 0x19_0000_0000_0000);
    lemma_pow2_adds(46, 1028);
    let p = pow2(1028) as int;
    assert(0x19_0000_0000_0000 * p == 100 * (0x4000_0000_0000 * p));
}

/// The pattern of the binary64 value nearest to a hundredth of `num` units.
pub open spec fn hundredth(num: int) -> u64 {
    choose|bits: u64| nearest(bits as int, num, 100)
}

/// The nearest value, once found, is the hundredth.
pub proof fn lemma_hundredth(bits: u64, num: int)
    requires
        nearest(bits as int, num, 100),
    ensures
        hundredth(num) == bits,
{
    lemma_nearest_unique(hundredth(num) as int, bits as int, num, 100);
}

/// A hundredth of at most 100 is at most 1.
pub proof fn lemma_hundredth_at_most_one(bits: int, num: int)
    requires
        nearest(bits, num, 100),
        num <= 100 * pow2(1074),
    ensures
        bits <= ONE,
{
    if bits > ONE {
        lemma_one_and_hundred();
        lemma_units_increase(ONE as int, bits);
        if bits - 1 > ONE {
            lemma_units_increase(ONE as int, bits - 1);
        }
    }
}

/// The greatest value whose hundredfold is at most `num` units.
proof fn lemma_floor(num: int, bound: int) -> (bits: int)
    requires
        0 <= num < 100 * units(bound + 1),
        0 <= bound,
    ensures
        0 <= bits <= bound,
        100 * units(bits) <= num < 100 * units(bits + 1),
    decreases bound,
{
    if 100 * units(bound) <= num {
        bound
    } else if bound == 0 {
        assert(units(0) == 0);
        0
    } else {
        lemma_floor(num, bound - 1)
    }
}

/// What is at most 100 has a hundredth, which is at most 1.
pub proof fn lemma_hundredth_exists(num: int)
    requires
        0 <= num <= 100 * pow2(1074),
    ensures
        nearest(hundredth(num) as int, num, 100),
        hundredth(num) <= ONE,
{
    lemma_one_and_hundred();
    lemma_units_step(ONE as int);
    let low = lemma_floor(num, ONE as int);
    lemma_units_step(low);
    lemma_units_step(low + 1);
    if low > 0 {
        lemma_units_step(low - 1);
    }
    let middle = 100 * (units(low) + units(low + 1));
    let bits = if 2 * num < middle || 2 * num == middle && low % 2 == 0 {
        low
    } else {
        low + 1
    };
    assert(nearest(bits, num, 100));
    assert(nearest(bits as u64 as int, num, 100));
    lemma_hundredth(bits as u64, num);
    lemma_hundredth_at_most_one(bits, num);
}

/// Comparing two quotients by their numerators: with `x / n == k / w` and
/// `b / p == k / w`, twice `x` stands to `c * b` as twice `n` stands to `c * p`.
proof fn lemma_scaled(x: int, n: int, b: int, p: int, k: int, w: int, c: int)
    requires
        k > 0,
        w > 0,
        x * w == n * k,
        b * w == p * k,
    ensures
        2 * n < c * p ==> 2 * x < c * b,
        2 * n == c * p ==> 2 * x == c * b,
        2 * n > c * p ==> 2 * x > c * b,
{
    let left = 2 * n - c * p;
    let right = 2 * x - c * b;
    assert(right * w == left * k) by (nonlinear_arith)
        requires
            x * w == n * k,
            b * w == p * k,
            left == 2 * n - c * p,
            right == 2 * x - c * b,
    ;
    assert(left < 0 ==> right < 0) by (nonlinear_arith)
        requires
            right * w == left * k,
            k > 0,
            w > 0,
    ;
    assert(left > 0 ==> right > 0) by (nonlinear_arith)
        requires
            right * w == left * k,
            k > 0,
            w > 0,
    ;
    assert(left == 0 ==> right == 0) by (nonlinear_arith)
        requires
            right * w == left * k,
            k > 0,
            w > 0,
    ;
}

/// Rounding a long quotient to a significand of 53 bits, ties to even, gives
/// the nearest value.
///
/// `m` shifted left by 64 bits is `100 * (q0 * p + rest) + r`, with `p` two to
/// the power `d`.
proof fn lemma_rounded(m: int, k: nat, d: nat, q0: int, rest: int, r: int, up: bool)
    requires
        m * pow2(64) == 100 * (q0 * pow2(d) + rest) + r,
        d >= 1,
        0 <= q0 < 2 * STEP,
        0 <= rest < pow2(d),
        0 <= r < 100,
        d + k >= 64,
        d + k == 64 || q0 >= STEP,
        d + k - 64 < 2000,
        up == (2 * rest > pow2(d) || 2 * rest == pow2(d) && (r > 0 || q0 % 2 == 1)),
    ensures
        nearest(
            (d + k - 64) * STEP + q0 + if up {
                1int
            } else {
                0
            },
            m * pow2(k),
            100,
        ),
{
    let j = d + k - 64;
    let q = q0 + if up {
        1int
    } else {
        0
    };
    let bits = j * STEP + q;
    let p = pow2(d) as int;
    let b = pow2(j as nat) as int;
    let w = pow2(64) as int;
    let scale = pow2(k) as int;
    let n = 100 * (q0 * p + rest) + r;
    let x = m * scale;
    lemma_pow2_pos(d);
    lemma_pow2_pos(k);
    lemma_pow2_pos(j as nat);
    lemma_pow2_pos(64);
    lemma_pow2_unfold(d);
    lemma_pow2_adds(d, k);
    lemma_pow2_adds(j as nat, 64);
    assert(x * w == n * scale) by (nonlinear_arith)
        requires
            x == m * scale,
            n == m * w,
    ;
    assert(b * w == p * scale);
    let half = pow2((d - 1) as nat) as int;
    assert(p == 2 * half);
    // Where `n` lies between the two midpoints, in steps of `p`.
    assert(100 * (2 * q + 1) * p == 200 * (q * p) + 100 * p) by (nonlinear_arith);
    assert(100 * (2 * q - 1) * p == 200 * (q * p) - 100 * p) by (nonlinear_arith);
    assert(up ==> q * p == q0 * p + p) by (nonlinear_arith)
        requires
            up ==> q == q0 + 1,
    ;
    assert(!up ==> q * p == q0 * p);
    lemma_scaled(x, n, b, p, scale, w, 100 * (2 * q + 1));
    lemma_scaled(x, n, b, p, scale, w, 100 * (2 * q - 1));
    assert(100 * (2 * q + 1) * b == 100 * (q * b + (q + 1) * b)) by (nonlinear_arith);
    assert(100 * (2 * q - 1) * b == 100 * ((q - 1) * b + q * b)) by (nonlinear_arith);
    assert(bits % 2 == q % 2);
    lemma_units(j, q);
    // The value above.
    if q < 2 * STEP {
        lemma_units(j, q + 1);
    } else {
        lemma_units(j + 1, STEP + 1);
        lemma_pow2_unfold((j + 1) as nat);
        assert((j + 1) * STEP + (STEP + 1) == bits + 1);
        assert((STEP + 1) * (2 * b) >= (q + 1) * b) by (nonlinear_arith)
            requires
                q == 2 * STEP,
                b > 0,
        ;
    }
    // The value below.
    if bits > 0 {
        if j == 0 || q > STEP {
            lemma_units(j, q - 1);
        } else {
            lemma_units_step(bits - 1);
            assert(!up);
            assert(100 * (2 * q) * p == 200 * (q * p)) by (nonlinear_arith);
            lemma_scaled(x, n, b, p, scale, w, 100 * (2 * q));
            assert(100 * (2 * q) * b == 200 * (q * b)) by (nonlinear_arith);
        }
    }
}

/// Divides `m` times two to the power `k`, a value in units, by 100.
pub fn divide_by_hundred(m: u64, k: u32) -> (bits: u64)
    requires
        m < 2 * STEP,
        k <= 1074,
    ensures
        nearest(bits as int, m * pow2(k as nat), 100),
        bits == hundredth(m * pow2(k as nat)),
{
    proof {
        lemma2_to64();
        lemma2_to64_rest();
    }
    if m == 0 {
        proof {
            assert(0 * pow2(k as nat) == 0);
            assert(units(0) == 0 && units(1) == 1);
            lemma_hundredth(0, 0);
        }
        return 0;
    }
    let shifted: u128 = (m as u128) * 0x1_0000_0000_0000_0000;
    let quotient: u128 = shifted / 100;
    let remainder: u128 = shifted % 100;
    let mut d: u32 = 0;
    let mut p: u128 = 1;
    while d + k < 64 || quotient / p >= 2 * (STEP as u128)
        invariant
            d <= 64,
            p == pow2(d as nat),
            k <= 1074,
            1 <= m < 2 * STEP,
            quotient <= m * 0x1_0000_0000_0000_0000,
            pow2(64) == 0x1_0000_0000_0000_0000,
            1 <= p <= 0x1_0000_0000_0000_0000,
            d + k <= 64 || quotient / p >= STEP,
            d == 0 ==> quotient / p >= 2 * STEP,
        decreases 64 - d,
    {
        proof {
            lemma_pow2_unfold((d + 1) as nat);
            if d == 64 {
                assert(quotient / p <= m) by (nonlinear_arith)
                    requires
                        quotient <= m * p,
                        p >= 1,
                ;
            }
            if d + 1 < 64 {
                lemma_pow2_strictly_increases((d + 1) as nat, 64);
            }
            assert(quotient / p >= 2 * STEP ==> quotient / ((2 * p) as u128) >= STEP)
                by (nonlinear_arith)
                requires
                    1 <= p <= 0x1_0000_0000_0000_0000,
            ;
        }
        p = p * 2;
        d = d + 1;
    }
    let significand: u128 = quotient / p;
    let rest: u128 = quotient % p;
    let up: bool = 2 * rest > p || (2 * rest == p && (remainder > 0 || significand % 2 == 1));
    let exponent: u64 = (d + k - 64) as u64;
    let mut bits: u64 = exponent * STEP + significand as u64;
    proof {
        assert(quotient == significand * p + rest) by (nonlinear_arith)
            requires
                p >= 1,
                significand == quotient / p,
                rest == quotient % p,
        ;
        lemma_rounded(
            m as int,
            k as nat,
            d as nat,
            significand as int,
            rest as int,
            remainder as int,
            up,
        );
    }
    if up {
        bits = bits + 1;
    }
    proof {
        lemma_hundredth(bits, m * pow2(k as nat));
    }
    bits
}

/// Bit patterns stand for binary64 values: up to two to the power -1021 a
/// pattern counts the units, and one more in the exponent field doubles the
/// value.
pub proof fn law_patterns_are_binary64(bits: int)
    requires
        0 <= bits,
    ensures
        bits < 0x20_0000_0000_0000 ==> units(bits) == bits,
        bits >= 0x10_0000_0000_0000 ==> units(bits + 0x10_0000_0000_0000) == 2 * units(bits),
        STEP == 0x10_0000_0000_0000 && INFINITY == 2047 * 0x10_0000_0000_0000,
        SIGN == 2048 * 0x10_0000_0000_0000,
{
    assert(pow2(0) == 1) by {
        lemma2_to64();
    }
    if bits < 2 * STEP {
        lemma_units(0, bits);
        let one = pow2(0) as int;
        assert(bits * one == bits) by (nonlinear_arith)
            requires
                one == 1,
        ;
    }
    let exponent = bits / (STEP as int);
    let fraction = bits % (STEP as int);
    if bits >= STEP {
        assert((bits + STEP) / (STEP as int) == exponent + 1);
        assert((bits + STEP) % (STEP as int) == fraction);
        lemma_pow2_unfold(exponent as nat);
        let p = pow2((exponent - 1) as nat) as int;
        assert((STEP + fraction) * (2 * p) == 2 * ((STEP + fraction) * p)) by (nonlinear_arith);
    }
}

/// How far the value of a pattern is from the quotient `num / den`, in units
/// and times `den`.
pub open spec fn distance(bits: int, num: int, den: int) -> int {
    if den * units(bits) >= num {
        den * units(bits) - num
    } else {
        num - den * units(bits)
    }
}

/// The nearest value is at no greater distance than any other finite one; of two
/// at the same distance it is the one with an even pattern.
pub proof fn law_nearest_is_at_the_least_distance(bits: int, num: int, den: int, other: int)
    requires
        den > 0,
        nearest(bits, num, den),
        0 <= other < INFINITY,
    ensures
        0 <= bits < INFINITY,
        distance(bits, num, den) <= distance(other, num, den),
        distance(bits, num, den) == distance(other, num, den) && other != bits ==> bits % 2 == 0,
{
    let u = units(bits);
    let v = units(other);
    if other < bits {
        let w = units(bits - 1);
        lemma_units_step(bits - 1);
        if other < bits - 1 {
            lemma_units_increase(other, bits - 1);
        }
        assert(den * (w + u) == den * w + den * u) by (nonlinear_arith);
        assert(den * v <= den * w && den * w < den * u && (v < w ==> den * v < den * w))
            by (nonlinear_arith)
            requires
                den > 0,
                v <= w,
                w < u,
        ;
    } else if other > bits {
        let w = units(bits + 1);
        lemma_units_step(bits);
        if bits + 1 < other {
            lemma_units_increase(bits + 1, other);
        }
        assert(den * (u + w) == den * u + den * w) by (nonlinear_arith);
        assert(den * w <= den * v && den * u < den * w && (w < v ==> den * w < den * v))
            by (nonlinear_arith)
            requires
                den > 0,
                w <= v,
                u < w,
        ;
    }
}

} // verus!
