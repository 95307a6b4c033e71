//! Lengths and their conversion to document units.
//!
//! A length is an integer number of millionths of a point. Twips are twentieths
//! of a point, and one twip is 635 EMU.

use vstd::prelude::*;

verus! {

/// One point.
pub const POINT: i64 = 1_000_000;

/// One twip.
pub const TWIP: i64 = 50_000;

/// EMU per twip.
pub const EMU_PER_TWIP: i64 = 635;

/// The value brought into the range of `i64`.
pub open spec fn sat64(x: int) -> i64 {
    if x < i64::MIN {
        i64::MIN
    } else if x > i64::MAX {
        i64::MAX
    } else {
        x as i64
    }
}

/// The value brought into the range of `i32`.
pub open spec fn sat32(x: int) -> i32 {
    if x < i32::MIN {
        i32::MIN
    } else if x > i32::MAX {
        i32::MAX
    } else {
        x as i32
    }
}

/// The integer nearest to `n / d`; a tie goes away from zero.
pub open spec fn round_div(n: int, d: int) -> int {
    if n >= 0 {
        (2 * n + d) / (2 * d)
    } else {
        -((-2 * n + d) / (2 * d))
    }
}

/// The integer nearest to `n / d`; a tie goes away from zero.
pub fn round_div_i128(n: i128, d: i128) -> (r: i128)
    requires
        0 < d <= 0x1000_0000,
        -0x1000_0000_0000_0000_0000_0000_0000_0000 <= n
            <= 0x1000_0000_0000_0000_0000_0000_0000_0000,
    ensures
        r == round_div(n as int, d as int),
        n >= 0 ==> 0 <= r <= n,
        n < 0 ==> n <= r <= 0,
{
    if n >= 0 {
        let r: i128 = (2 * n + d) / (2 * d);
        proof {
            lemma_round_bounds(n as int, d as int);
        }
        r
    } else {
        let m: i128 = -n;
        let r: i128 = (2 * m + d) / (2 * d);
        proof {
            lemma_round_bounds(m as int, d as int);
        }
        -r
    }
}

proof fn lemma_round_bounds(n: int, d: int)
    requires
        0 <= n,
        0 < d,
    ensures
        0 <= (2 * n + d) / (2 * d) <= n,
{
    assert(0 <= (2 * n + d) / (2 * d) <= n) by (nonlinear_arith)
        requires
            0 <= n,
            0 < d,
    ;
}

/// Brings a value into the range of `i64`.
pub fn clamp_i64(x: i128) -> (r: i64)
    ensures
        r == sat64(x as int),
{
    if x < i64::MIN as i128 {
        i64::MIN
    } else if x > i64::MAX as i128 {
        i64::MAX
    } else {
        x as i64
    }
}

/// Brings a value into the range of `i32`.
pub fn clamp_i32(x: i128) -> (r: i32)
    ensures
        r == sat32(x as int),
{
    if x < i32::MIN as i128 {
        i32::MIN
    } else if x > i32::MAX as i128 {
        i32::MAX
    } else {
        x as i32
    }
}

/// The nearest number of twips.
pub open spec fn twips(x: int) -> i32 {
    sat32(round_div(x, TWIP as int))
}

/// The nearest number of twips.
pub fn abs_to_twip(x: i64) -> (r: i32)
    ensures
        r == twips(x as int),
{
    clamp_i32(round_div_i128(x as i128, TWIP as i128))
}

/// A sum brought into the range of `i32`.
pub fn add_sat(a: i32, b: i32) -> (r: i32)
    ensures
        r == sat32(a + b),
{
    let sum: i64 = a as i64 + b as i64;
    if sum < i32::MIN as i64 {
        i32::MIN
    } else if sum > i32::MAX as i64 {
        i32::MAX
    } else {
        sum as i32
    }
}

/// A length made of an absolute part and a share of some base length.
#[derive(Debug, Copy, Clone, PartialEq, Eq, Structural)]
pub struct Rel {
    pub abs: i64,
    /// Millionths of the base length.
    pub ratio: i64,
}

impl Rel {
    /// The length for a given base length.
    pub open spec fn at(self, base: i64) -> i64 {
        sat64(self.abs + round_div(self.ratio * base, POINT as int))
    }

    /// The length for a given base length.
    pub fn relative_to(self, base: i64) -> (r: i64)
        ensures
            r == self.at(base),
    {
        assert(-0x4000_0000_0000_0000_0000_0000_0000_0000 <= self.ratio * base
            <= 0x4000_0000_0000_0000_0000_0000_0000_0000) by (nonlinear_arith)
            requires
                -0x8000_0000_0000_0000 <= self.ratio <= 0x7fff_ffff_ffff_ffff,
                -0x8000_0000_0000_0000 <= base <= 0x7fff_ffff_ffff_ffff,
        ;
        let share: i128 = self.ratio as i128 * base as i128;
        let rounded: i128 = round_share(share);
        clamp_i64(self.abs as i128 + rounded)
    }
}

/// The nearest millionth of a product of two lengths.
fn round_share(n: i128) -> (r: i128)
    requires
        -0x4000_0000_0000_0000_0000_0000_0000_0000 <= n
            <= 0x4000_0000_0000_0000_0000_0000_0000_0000,
    ensures
        r == round_div(n as int, POINT as int),
        -0x4000_0000_0000_0000_0000_0000_0000 <= r <= 0x4000_0000_0000_0000_0000_0000_0000,
{
    let d: i128 = POINT as i128;
    if n >= 0 {
        let q: i128 = n / d;
        let rest: i128 = n % d;
        assert(n == q * d + rest && 0 <= rest < d && 0 <= q) by (nonlinear_arith)
            requires
                q == n / d,
                rest == n % d,
                d == 1_000_000,
                n >= 0,
        ;
        let r: i128 = if 2 * rest >= d {
            q + 1
        } else {
            q
        };
        assert(r == (2 * n + d) / (2 * d));
        r
    } else {
        let m: i128 = -n;
        let q: i128 = m / d;
        let rest: i128 = m % d;
        let r: i128 = if 2 * rest >= d {
            q + 1
        } else {
            q
        };
        assert(r == (2 * m + d) / (2 * d));
        -r
    }
}

/// Rounding goes to a nearest integer, to the one away from zero where two are
/// nearest, and treats both signs alike.
pub proof fn rounding_is_to_the_nearest(n: int, d: int)
    requires
        d > 0,
    ensures
        2 * (round_div(n, d) * d - n) <= d,
        2 * (n - round_div(n, d) * d) <= d,
        n >= 0 ==> 2 * (n - round_div(n, d) * d) < d,
        n <= 0 ==> 2 * (round_div(n, d) * d - n) < d,
        round_div(-n, d) == -round_div(n, d),
{
    let m = if n >= 0 {
        n
    } else {
        -n
    };
    let q = (2 * m + d) / (2 * d);
    assert(2 * (q * d - m) <= d && 2 * (m - q * d) < d) by (nonlinear_arith)
        requires
            d > 0,
            q == (2 * m + d) / (2 * d),
    ;
    assert(0 <= d / (2 * d) < 1) by (nonlinear_arith)
        requires
            d > 0,
    ;
    if n == 0 {
        assert(round_div(n, d) * d == 0) by (nonlinear_arith)
            requires
                round_div(n, d) == 0,
        ;
    }
    if n < 0 {
        assert(round_div(n, d) * d == -(q * d)) by (nonlinear_arith)
            requires
                round_div(n, d) == -q,
        ;
    }
}

/// A whole number of twips is that many twips, as far as 32 bits go, and twenty of
/// them are a point.
pub proof fn whole_twips_are_exact(k: int)
    ensures
        i32::MIN <= k <= i32::MAX ==> twips(50_000 * k) == k,
        k > i32::MAX ==> twips(50_000 * k) == i32::MAX,
        k < i32::MIN ==> twips(50_000 * k) == i32::MIN,
        -0x600_0000 <= k <= 0x600_0000 ==> twips(1_000_000 * k) == 20 * k,
{
    assert((2 * (50_000 * k) + 50_000) / 100_000 == k) by (nonlinear_arith);
    assert((-2 * (50_000 * k) + 50_000) / 100_000 == -k) by (nonlinear_arith);
    assert((2 * (1_000_000 * k) + 50_000) / 100_000 == 20 * k) by (nonlinear_arith);
    assert((-2 * (1_000_000 * k) + 50_000) / 100_000 == -(20 * k)) by (nonlinear_arith);
}

/// A longer length is no fewer twips.
pub proof fn longer_lengths_have_more_twips(a: int, b: int)
    requires
        a <= b,
    ensures
        twips(a) <= twips(b),
{
}

/// A length without a share is its absolute part; a whole share is the base length
/// on top of it.
pub proof fn shares_are_of_the_base(abs: i64, base: i64)
    ensures
        (Rel { abs, ratio: 0 }).at(base) == abs,
        i64::MIN <= abs + base <= i64::MAX ==> (Rel { abs, ratio: 1_000_000 }).at(base) == abs
            + base,
{
    let b = base as int;
    assert((2 * (1_000_000 * b) + 1_000_000) / 2_000_000 == b) by (nonlinear_arith);
    assert((-2 * (1_000_000 * b) + 1_000_000) / 2_000_000 == -b) by (nonlinear_arith);
    assert(0 * b == 0) by (nonlinear_arith);
    rounding_is_to_the_nearest(0, 1_000_000);
}

} // verus!
