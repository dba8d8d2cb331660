//! Scaling ratios in single precision, worked out with whole numbers.
//!
//! A ratio is kept as the 32 bits of its floating-point form: a number `m * 2^x` with a
//! mantissa `m` of at most 24 bits. Everything that has to be known about it can be read off
//! those bits, and a product is rounded as the hardware rounds it: to 24 significant bits, to
//! the nearest, and to the even one of two that are equally near.

use vstd::arithmetic::div_mod::*;
use vstd::arithmetic::power2::*;
use vstd::prelude::*;

verus! {

/// A scaling ratio.
pub struct Ratio {
    /// The bits of its floating-point form.
    pub bits: u32,
    /// How it is written for a user.
    pub shown: String,
    /// How the same number is written in double precision, as JSON has it.
    pub wide: String,
}

/// The bits of infinity; larger ones are not numbers, or are negative.
pub const INFINITE: u32 = 0x7f80_0000;

/// The bits of 0.25.
pub const QUARTER: u32 = 0x3e80_0000;

/// The bits of 8.
pub const EIGHT: u32 = 0x4100_0000;

/// Two to the power of 24: the mantissa is below it.
pub const MANTISSA_LIMIT: u64 = 0x100_0000;

/// A number above zero that is not infinite.
pub open spec fn is_usable(bits: u32) -> bool {
    0 < bits < INFINITE
}

/// A number from 0.25 to 8. The bits of positive numbers are ordered as the numbers are.
pub open spec fn is_in_range(bits: u32) -> bool {
    QUARTER <= bits <= EIGHT
}

/// The mantissa: the lower 23 bits, with a leading one unless the number is very small.
pub open spec fn mantissa(bits: u32) -> nat {
    let low = (bits % 0x80_0000) as nat;
    if bits / 0x80_0000 % 256 == 0 {
        low
    } else {
        low + 0x80_0000
    }
}

/// The exponent that goes with the mantissa.
pub open spec fn exponent(bits: u32) -> int {
    let field = (bits / 0x80_0000 % 256) as int;
    if field == 0 {
        -149
    } else {
        field - 150
    }
}

/// How many bits a number has beyond 24.
pub open spec fn excess(n: nat) -> nat
    decreases n,
{
    if n < MANTISSA_LIMIT {
        0
    } else {
        1 + excess(n / 2)
    }
}

/// A number rounded to 24 significant bits.
pub open spec fn rounded(n: nat) -> nat {
    let unit = pow2(excess(n));
    let (whole, rest) = (n / unit, n % unit);
    if 2 * rest > unit || (2 * rest == unit && whole % 2 == 1) {
        (whole + 1) * unit
    } else {
        whole * unit
    }
}

/// The whole number nearest to `n * 2^x`; a half is rounded up.
pub open spec fn nearest(n: nat, x: int) -> nat {
    if x >= 0 {
        n * pow2(x as nat)
    } else {
        (2 * n + pow2((-x) as nat)) / (2 * pow2((-x) as nat))
    }
}

/// The product of a size and a ratio in single precision, as the whole number nearest to it.
pub open spec fn product(size: u32, bits: u32) -> nat {
    nearest(rounded(rounded(size as nat) * mantissa(bits)), exponent(bits))
}

/// A size times a ratio, kept from 1 to `most`.
pub open spec fn scaled(size: u32, bits: u32, most: u32) -> u32 {
    let value = product(size, bits);
    if value < 1 {
        1
    } else if value > most {
        most
    } else {
        value as u32
    }
}

// ---------------------------------------------------------------------------------------------
// Computing

/// Two to the power of `k`.
pub fn power_of_two(k: u32) -> (out: u64)
    requires
        k < 64,
    ensures
        out == pow2(k as nat),
        out > 0,
{
    let mut out: u64 = 1;
    let mut i: u32 = 0;
    proof {
        lemma2_to64();
        lemma2_to64_rest();
    }
    while i < k
        invariant
            i <= k < 64,
            out == pow2(i as nat),
            pow2(63) == 0x8000_0000_0000_0000,
        decreases k - i,
    {
        proof {
            lemma_pow2_unfold((i + 1) as nat);
            if i + 1 < 63 {
                lemma_pow2_strictly_increases((i + 1) as nat, 63);
            }
        }
        out = out * 2;
        i += 1;
    }
    proof {
        lemma_pow2_pos(k as nat);
    }
    out
}

fn excess_of(n: u64) -> (out: u32)
    ensures
        out == excess(n as nat),
        n < 0x100_0000_0000_0000 * 2 ==> out <= 33,
    decreases n,
{
    if n < MANTISSA_LIMIT {
        0
    } else {
        proof {
            lemma_excess_bound((n / 2) as nat, 40);
            lemma_excess_bound((n / 2) as nat, 33);
            lemma2_to64();
            lemma2_to64_rest();
        }
        1 + excess_of(n / 2)
    }
}

/// A number below `2^(24 + k)` has at most `k` bits beyond 24.
proof fn lemma_excess_bound(n: nat, k: nat)
    ensures
        n < MANTISSA_LIMIT * pow2(k) ==> excess(n) <= k,
        k >= 1 && n < MANTISSA_LIMIT * pow2((k - 1) as nat) ==> excess(n) <= k - 1,
    decreases n,
{
    lemma2_to64();
    if n >= MANTISSA_LIMIT {
        if k >= 1 {
            lemma_pow2_unfold(k);
            lemma_excess_bound(n / 2, (k - 1) as nat);
        }
        if k >= 2 {
            lemma_pow2_unfold((k - 1) as nat);
        }
    }
}


pub fn round24(n: u64) -> (out: u64)
    requires
        n < 0x200_0000_0000_0000,
    ensures
        out == rounded(n as nat),
        out <= 2 * n,
{
    let k = excess_of(n);
    let unit = power_of_two(k);
    let whole: u64 = n / unit;
    let rest: u64 = n % unit;
    proof {
        lemma_fundamental_div_mod(n as int, unit as int);
        assert(unit <= n || k == 0) by {
            lemma_excess_reached(n as nat);
        }
        lemma2_to64();
        assert(whole * unit <= n) by (nonlinear_arith)
            requires
                n == unit * whole + rest,
                rest >= 0,
        ;
        assert((whole + 1) * unit == whole * unit + unit) by (nonlinear_arith);
        if k == 0 {
            assert(unit == 1);
            assert(rest == 0);
        }
        assert(rest < unit);
    }
    if 2 * rest > unit || (2 * rest == unit && whole % 2 == 1) {
        (whole + 1) * unit
    } else {
        whole * unit
    }
}

/// A number with `k` bits beyond 24 is at least `2^k`.
proof fn lemma_excess_reached(n: nat)
    ensures
        excess(n) > 0 ==> pow2(excess(n)) <= n,
    decreases n,
{
    if n >= MANTISSA_LIMIT {
        lemma_excess_reached(n / 2);
        lemma_pow2_unfold(excess(n));
        lemma2_to64();
        if excess(n / 2) == 0 {
            assert(excess(n) == 1);
        }
    }
}

pub fn mantissa_of(bits: u32) -> (out: u64)
    ensures
        out == mantissa(bits),
        out < MANTISSA_LIMIT,
{
    let low: u64 = (bits % 0x80_0000) as u64;
    if bits / 0x80_0000 % 256 == 0 {
        low
    } else {
        low + 0x80_0000
    }
}

pub fn exponent_of(bits: u32) -> (out: i32)
    ensures
        out == exponent(bits),
        -149 <= out <= 105,
{
    let field: u32 = bits / 0x80_0000 % 256;
    if field == 0 {
        -149
    } else {
        field as i32 - 150
    }
}

/// A size times a ratio, kept from 1 to `most`.
pub fn scale(size: u32, bits: u32, most: u32) -> (out: u32)
    requires
        most >= 1,
    ensures
        out == scaled(size, bits, most),
{
    let a = round24(size as u64);
    let m = mantissa_of(bits);
    assert(a * m < 0x200_0000_0000_0000) by (nonlinear_arith)
        requires
            a <= 0x1_ffff_ffff,
            m < 0x100_0000,
    ;
    let n = round24(a * m);
    let x = exponent_of(bits);
    let value: u64 = if x >= 0 {
        if n == 0 {
            assert(0 * pow2(x as nat) == 0) by (nonlinear_arith);
            0
        } else if x >= 32 || n > most as u64 {
            proof {
                lemma_pow2_pos(x as nat);
                if x >= 32 {
                    if x > 32 {
                        lemma_pow2_strictly_increases(32, x as nat);
                    }
                    lemma2_to64();
                    assert(n * pow2(x as nat) >= pow2(x as nat)) by (nonlinear_arith)
                        requires
                            n >= 1,
                            pow2(x as nat) > 0,
                    ;
                } else {
                    assert(n * pow2(x as nat) >= n) by (nonlinear_arith)
                        requires
                            pow2(x as nat) >= 1,
                    ;
                }
            }
            return most;
        } else {
            let p = power_of_two(x as u32);
            proof {
                lemma2_to64();
                lemma_pow2_strictly_increases(x as nat, 32);
                assert(n * p <= 0xffff_ffff * 0x1_0000_0000) by (nonlinear_arith)
                    requires
                        n <= 0xffff_ffff,
                        p <= 0x1_0000_0000,
                ;
            }
            n * p
        }
    } else {
        let k: u32 = (-x) as u32;
        if k >= 60 {
            proof {
                lemma2_to64();
                lemma2_to64_rest();
                if k > 60 {
                    lemma_pow2_strictly_increases(60, k as nat);
                }
                let p = pow2(k as nat) as int;
                assert(2 * n + p < 2 * p);
                assert((2 * n + p) / (2 * p) == 0) by {
                    lemma_small_div(2 * n as int + p, 2 * p);
                }
            }
            0
        } else {
            let p = power_of_two(k);
            proof {
                lemma2_to64();
                lemma2_to64_rest();
                lemma_pow2_strictly_increases(k as nat, 60);
            }
            (2 * n + p) / (2 * p)
        }
    };
    if value < 1 {
        1
    } else if value > most as u64 {
        most
    } else {
        value as u32
    }
}

proof fn lemma_small_div(a: int, b: int)
    requires
        0 <= a < b,
    ensures
        a / b == 0,
{
    lemma_fundamental_div_mod(a, b);
    assert(a / b == 0) by (nonlinear_arith)
        requires
            0 <= a < b,
    ;
}

// ---------------------------------------------------------------------------------------------
// The bounds of a ratio

/// The exact product of a size and a ratio is larger than a limit.
pub open spec fn exceeds(size: u32, bits: u32, limit: u32) -> bool {
    size * mantissa(bits) > limit * pow2((-exponent(bits)) as nat)
}

/// The whole number nearest to the exact product of a size and a ratio.
pub open spec fn nearest_product(size: u32, bits: u32) -> nat {
    nearest((size * mantissa(bits)) as nat, exponent(bits))
}

proof fn lemma_range(bits: u32)
    requires
        is_in_range(bits),
    ensures
        -25 <= exponent(bits) <= -20,
{
}

/// Whether a size times a ratio is larger than a limit, and the whole number nearest to it.
pub fn check_product(size: u32, bits: u32, limit: u32) -> (out: (bool, u64))
    requires
        is_in_range(bits),
    ensures
        out.0 == exceeds(size, bits, limit),
        out.1 == nearest_product(size, bits),
{
    let m = mantissa_of(bits);
    let x = exponent_of(bits);
    proof {
        lemma_range(bits);
        assert(size * m < 0x100_0000_0000_0000) by (nonlinear_arith)
            requires
                size <= 0xffff_ffff,
                m < 0x100_0000,
        ;
    }
    let n: u64 = size as u64 * m;
    let p = power_of_two((-x) as u32);
    proof {
        lemma2_to64();
        if x > -25 {
            lemma_pow2_strictly_increases((-x) as nat, 25);
        }
        assert(limit * p <= 0xffff_ffff * 0x200_0000) by (nonlinear_arith)
            requires
                limit <= 0xffff_ffff,
                p <= 0x200_0000,
        ;
        assert(size * mantissa(bits) == n);
    }
    (n > limit as u64 * p, (2 * n + p) / (2 * p))
}

/// A size that is scaled is never zero and never beyond the limit.
pub proof fn a_scaled_size_is_in_bounds(size: u32, bits: u32, most: u32)
    requires
        most >= 1,
    ensures
        1 <= scaled(size, bits, most) <= most,
{
}

proof fn lemma_rounded_is_near(n: nat)
    ensures
        pow2(excess(n)) >= 1,
        2 * rounded(n) <= 2 * n + pow2(excess(n)),
        2 * n <= 2 * rounded(n) + pow2(excess(n)),
{
    let unit = pow2(excess(n)) as int;
    lemma_pow2_pos(excess(n));
    let (whole, rest) = (n as int / unit, n as int % unit);
    lemma_fundamental_div_mod(n as int, unit);
    assert(n == whole * unit + rest) by (nonlinear_arith)
        requires
            n == unit * whole + rest,
    ;
    assert((whole + 1) * unit == whole * unit + unit) by (nonlinear_arith);
    assert(0 <= rest < unit);
}

proof fn lemma_nearest_is_near(n: nat, k: nat)
    requires
        k > 0,
    ensures
        2 * (nearest(n, -(k as int)) * pow2(k)) <= 2 * n + pow2(k),
        2 * n < 2 * (nearest(n, -(k as int)) * pow2(k)) + pow2(k) + 1,
{
    let p = pow2(k) as int;
    lemma_pow2_pos(k);
    let v = (2 * n as int + p) / (2 * p);
    let rest = (2 * n as int + p) % (2 * p);
    lemma_fundamental_div_mod(2 * n as int + p, 2 * p);
    assert(0 <= rest < 2 * p);
    assert(2 * (v * p) == (2 * p) * v) by (nonlinear_arith);
    assert(nearest(n, -(k as int)) == v);
}

proof fn lemma_small_is_exact(n: nat)
    requires
        n < MANTISSA_LIMIT,
    ensures
        rounded(n) == n,
{
    lemma2_to64();
    assert(excess(n) == 0);
    assert(pow2(0) == 1);
    assert((n + 0) * 1 == n);
}

/// A size that is scaled comes out as the product of the two: never further from it than the
/// rounding to whole numbers and to 24 bits explains, unless it is at one of its bounds. The
/// product is the size times the mantissa, and `2` to the power of the negated exponent stands
/// for one.
pub proof fn a_scaled_size_is_near_the_product(size: u32, bits: u32, most: u32)
    requires
        is_in_range(bits),
        size <= 16384,
        most >= 1,
    ensures
        ({
            let one = pow2((-exponent(bits)) as nat);
            let exact = size * mantissa(bits);
            let out = scaled(size, bits, most);
            &&& out > 1 ==> 2 * (out * one) <= 2 * exact + one + 16384
            &&& out < most ==> 2 * exact <= 2 * (out * one) + one + 16384
        }),
{
    lemma_range(bits);
    lemma2_to64();
    let k = (-exponent(bits)) as nat;
    let one = pow2(k);
    let m = mantissa(bits);
    lemma_small_is_exact(size as nat);
    let n = (size * m) as nat;
    assert(n <= 16384 * 0xff_ffff) by (nonlinear_arith)
        requires
            n == size * m,
            size <= 16384,
            m <= 0xff_ffff,
    ;
    lemma_excess_bound(n, 14);
    lemma_rounded_is_near(n);
    if excess(n) < 14 {
        lemma_pow2_strictly_increases(excess(n), 14);
    }
    assert(pow2(14) == 16384);
    assert(pow2(excess(n)) <= 16384);
    lemma_nearest_is_near(rounded(n), k);
    let v = product(size, bits);
    assert(v == nearest(rounded(n), -(k as int)));
    let out = scaled(size, bits, most);
    if out > 1 {
        assert(out <= v);
        assert(out * one <= v * one) by (nonlinear_arith)
            requires
                out <= v,
                one >= 0,
        ;
    }
    if out < most {
        assert(v <= out);
        assert(v * one <= out * one) by (nonlinear_arith)
            requires
                v <= out,
                one >= 0,
        ;
    }
}

/// Where the product of a size and a ratio is a whole number within the bounds, that number comes
/// out.
pub proof fn a_whole_product_comes_out(size: u32, bits: u32, whole: u32, most: u32)
    requires
        is_in_range(bits),
        size < MANTISSA_LIMIT,
        1 <= whole <= most,
        whole < MANTISSA_LIMIT,
        size * mantissa(bits) == whole * pow2((-exponent(bits)) as nat),
    ensures
        scaled(size, bits, most) == whole,
{
    lemma_range(bits);
    lemma2_to64();
    let k = (-exponent(bits)) as nat;
    let one = pow2(k) as int;
    lemma_small_is_exact(size as nat);
    let n = (size * mantissa(bits)) as nat;
    assert(n < MANTISSA_LIMIT * pow2(k)) by (nonlinear_arith)
        requires
            n == whole * pow2(k),
            whole < MANTISSA_LIMIT,
            pow2(k) > 0,
    ;
    lemma_excess_bound(n, k);
    let e = excess(n);
    let unit = pow2(e) as int;
    lemma_pow2_pos(e);
    let d = (k - e) as nat;
    lemma_pow2_adds(e, d);
    let times = (whole * pow2(d)) as int;
    assert(n == times * unit) by (nonlinear_arith)
        requires
            n == whole * pow2(k),
            pow2(k) == pow2(e) * pow2(d),
            times == whole * pow2(d),
            unit == pow2(e),
    ;
    lemma_mod_multiples_basic(times, unit);
    lemma_div_multiples_vanish(times, unit);
    assert(times * unit == unit * times) by (nonlinear_arith);
    assert(rounded(n) == n);
    assert((2 * n as int + one) / (2 * one) == whole) by {
        let top = 2 * n as int + one;
        lemma_fundamental_div_mod(top, 2 * one);
        assert(top == (2 * one) * whole + one) by (nonlinear_arith)
            requires
                top == 2 * n + one,
                n == whole * one,
        ;
        lemma_fundamental_div_mod_converse(top, 2 * one, whole as int, one);
    }
}

/// What the bits of a ratio say: a quarter and eight are what they are, the next bits within the
/// same power of two have the next mantissa, and a step of the exponent field doubles the number.
pub proof fn the_bits_of_a_ratio(bits: u32)
    ensures
        mantissa(QUARTER) * 4 == pow2((-exponent(QUARTER)) as nat),
        mantissa(EIGHT) == 8 * pow2((-exponent(EIGHT)) as nat),
        bits < INFINITE - 1 && (bits + 1) % 0x80_0000 != 0 ==> mantissa((bits + 1) as u32)
            == mantissa(bits) + 1 && exponent((bits + 1) as u32) == exponent(bits),
        0x80_0000 <= bits < INFINITE - 0x80_0000 ==> mantissa((bits + 0x80_0000) as u32)
            == mantissa(bits) && exponent((bits + 0x80_0000) as u32) == exponent(bits) + 1,
{
    lemma2_to64();
    assert(QUARTER == 125 * 0x80_0000);
    assert(EIGHT == 130 * 0x80_0000);
}

/// A ratio is accepted exactly where it is a number from a quarter to eight.
pub proof fn a_ratio_is_from_a_quarter_to_eight(bits: u32)
    ensures
        is_in_range(bits) <==> is_usable(bits) && exponent(bits) < 0 && pow2(
            (-exponent(bits)) as nat,
        ) <= 4 * mantissa(bits) && mantissa(bits) <= 8 * pow2((-exponent(bits)) as nat),
{
    lemma2_to64();
    if is_usable(bits) && exponent(bits) < 0 {
        let k = (-exponent(bits)) as nat;
        if k > 25 {
            lemma_pow2_strictly_increases(25, k);
            if k > 26 {
                lemma_pow2_strictly_increases(26, k);
            }
        }
        if k < 20 {
            lemma_pow2_strictly_increases(k, 20);
            if k < 19 {
                lemma_pow2_strictly_increases(k, 19);
            }
        }
        assert(pow2(26) == 0x400_0000 && pow2(19) == 0x8_0000);
    }
}

/// A ratio that doubles.
pub const TWO: u32 = 0x4000_0000;

/// Twice a size is the size twice.
pub proof fn twice_is_twice(size: u32, most: u32)
    requires
        1 <= size,
        2 * size <= most,
        2 * size < MANTISSA_LIMIT,
    ensures
        scaled(size, TWO, most) == 2 * size,
{
    lemma2_to64();
    assert(mantissa(TWO) == 0x80_0000 && exponent(TWO) == -22);
    assert(pow2(22) == 0x40_0000);
    assert(size * 0x80_0000 == (2 * size) * 0x40_0000);
    a_whole_product_comes_out(size, TWO, (2 * size) as u32, most);
}

} // verus!
