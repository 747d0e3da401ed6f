//! Fixed-point scalar arithmetic.
//!
//! A scalar is stored as a signed count of 1/65536 units (16 fractional
//! bits).  Multiplication, division and square root round to the nearest
//! representable value (ties away from zero), and every result is clamped
//! into the symmetric range `[-FX_SAT, FX_SAT]`, so all operations are
//! total.  Each executable operation is pinned to an exact specification
//! over the mathematical integers.

use vstd::prelude::*;

verus! {

/// Number of raw units in the scalar value one (16 fractional bits).
pub const SCALE: i64 = 65536;

/// Saturation bound on raw values; results are clamped into
/// `[-FX_SAT, FX_SAT]` (scalar magnitude about 1.6e7).
pub const FX_SAT: i64 = 0x100_0000_0000;

/// Clamp an unbounded intermediate result into the representable range.
pub open spec fn sat(x: int) -> int {
    if x > FX_SAT as int {
        FX_SAT as int
    } else if x < -(FX_SAT as int) {
        -(FX_SAT as int)
    } else {
        x
    }
}

/// Absolute value on the mathematical integers.
pub open spec fn abs_i(x: int) -> int {
    if x < 0 {
        -x
    } else {
        x
    }
}

/// `n / d` rounded to the nearest integer for `n >= 0`, `d > 0`;
/// ties round up.
pub open spec fn rdiv_nn(n: int, d: int) -> int {
    (2 * n + d) / (2 * d)
}

/// `n / d` rounded to the nearest integer, ties away from zero, for `d != 0`.
pub open spec fn rdiv(n: int, d: int) -> int {
    let nn = if d < 0 { -n } else { n };
    let dd = if d < 0 { -d } else { d };
    if nn >= 0 {
        rdiv_nn(nn, dd)
    } else {
        -rdiv_nn(-nn, dd)
    }
}

/// Largest `r >= 0` with `r * r <= n` (and zero for negative `n`).
pub open spec fn sqrt_floor(n: int) -> int
    decreases n,
    when n >= 0
{
    if n <= 0 {
        0
    } else {
        let p = sqrt_floor(n - 1);
        if (p + 1) * (p + 1) <= n {
            p + 1
        } else {
            p
        }
    }
}

/// Square root of `n` rounded to the nearest integer.
pub open spec fn sqrt_round(n: int) -> int {
    let f = sqrt_floor(n);
    if n > f * f + f {
        f + 1
    } else {
        f
    }
}

pub proof fn lemma_sqrt_floor(n: int)
    requires
        n >= 0,
    ensures
        0 <= sqrt_floor(n),
        sqrt_floor(n) * sqrt_floor(n) <= n,
        n < (sqrt_floor(n) + 1) * (sqrt_floor(n) + 1),
    decreases n,
{
    if n == 0 {
        assert(sqrt_floor(0) == 0);
    } else {
        let p = sqrt_floor(n - 1);
        lemma_sqrt_floor(n - 1);
        if (p + 1) * (p + 1) <= n {
            assert(sqrt_floor(n) == p + 1);
            assert(n <= (p + 1) * (p + 1));
            assert(n < ((p + 1) + 1) * ((p + 1) + 1)) by (nonlinear_arith)
                requires
                    0 <= p,
                    n <= (p + 1) * (p + 1),
            ;
        } else {
            assert(sqrt_floor(n) == p);
        }
    }
}

pub proof fn lemma_sqrt_floor_unique(n: int, r: int)
    requires
        0 <= r,
        r * r <= n,
        n < (r + 1) * (r + 1),
    ensures
        r == sqrt_floor(n),
{
    let f = sqrt_floor(n);
    lemma_sqrt_floor(n);
    assert(r == f) by (nonlinear_arith)
        requires
            0 <= r,
            0 <= f,
            r * r <= n,
            n < (r + 1) * (r + 1),
            f * f <= n,
            n < (f + 1) * (f + 1),
    ;
}

/// Fixed-point scalar: `raw` counts 1/65536 units.
#[derive(Clone, Copy, Debug, PartialEq, Eq, Structural)]
pub struct Fx {
    pub raw: i64,
}

/// Build a scalar from an unbounded raw count, saturating.
pub open spec fn fxr(x: int) -> Fx {
    Fx { raw: sat(x) as i64 }
}

impl Fx {
    pub open spec fn plus_spec(self, o: Fx) -> Fx {
        fxr(self.raw + o.raw)
    }

    pub open spec fn minus_spec(self, o: Fx) -> Fx {
        fxr(self.raw - o.raw)
    }

    pub open spec fn neg_spec(self) -> Fx {
        fxr(-self.raw)
    }

    pub open spec fn times_spec(self, o: Fx) -> Fx {
        fxr(rdiv(self.raw * o.raw, SCALE as int))
    }

    pub open spec fn div_spec(self, o: Fx) -> Fx {
        if o.raw == 0 {
            if self.raw > 0 {
                fxr(FX_SAT as int)
            } else if self.raw < 0 {
                fxr(-(FX_SAT as int))
            } else {
                fxr(0)
            }
        } else {
            fxr(rdiv(self.raw * SCALE, o.raw as int))
        }
    }

    pub open spec fn sqrt_spec(self) -> Fx {
        if self.raw <= 0 {
            Fx { raw: 0 }
        } else {
            Fx { raw: sqrt_round(self.raw * SCALE) as i64 }
        }
    }

    /// Make a scalar from a raw count of 1/65536 units, saturating.
    pub fn from_raw(raw: i64) -> (r: Fx)
        ensures
            r == fxr(raw as int),
    {
        Fx { raw: sat_i64(raw as i128) }
    }

    pub fn plus(self, o: Fx) -> (r: Fx)
        ensures
            r == self.plus_spec(o),
    {
        Fx { raw: sat_i64(self.raw as i128 + o.raw as i128) }
    }

    pub fn minus(self, o: Fx) -> (r: Fx)
        ensures
            r == self.minus_spec(o),
    {
        Fx { raw: sat_i64(self.raw as i128 - o.raw as i128) }
    }

    pub fn neg(self) -> (r: Fx)
        ensures
            r == self.neg_spec(),
    {
        Fx { raw: sat_i64(-(self.raw as i128)) }
    }

    pub fn times(self, o: Fx) -> (r: Fx)
        ensures
            r == self.times_spec(o),
    {
        proof {
            lemma_mul_i64_range(self.raw as int, o.raw as int);
        }
        let p = self.raw as i128 * o.raw as i128;
        Fx { raw: sat_i64(rdiv_i128(p, SCALE as i128)) }
    }

    pub fn divide(self, o: Fx) -> (r: Fx)
        ensures
            r == self.div_spec(o),
    {
        if o.raw == 0 {
            if self.raw > 0 {
                Fx { raw: FX_SAT }
            } else if self.raw < 0 {
                Fx { raw: -FX_SAT }
            } else {
                Fx { raw: 0 }
            }
        } else {
            proof {
                lemma_mul_i64_range(self.raw as int, SCALE as int);
            }
            let n = self.raw as i128 * SCALE as i128;
            Fx { raw: sat_i64(rdiv_i128(n, o.raw as i128)) }
        }
    }

    pub fn sqrt(self) -> (r: Fx)
        ensures
            r == self.sqrt_spec(),
    {
        if self.raw <= 0 {
            Fx { raw: 0 }
        } else {
            proof {
                assert((self.raw as int) * (SCALE as int) < 0x1_0000_0000_0000_0000_0000)
                    by (nonlinear_arith)
                    requires
                        0 < self.raw as int <= 0x7FFF_FFFF_FFFF_FFFF,
                ;
            }
            let n = self.raw as u128 * SCALE as u128;
            let f = isqrt_u128(n);
            proof {
                assert(f < 0x1_0000_0000_0000 && f * f < 0x1_0000_0000_0000_0000_0000_0000)
                    by (nonlinear_arith)
                    requires
                        f * f <= n,
                        n < 0x1_0000_0000_0000_0000_0000,
                ;
            }
            let fsq = f * f;
            let r = if n - fsq > f {
                f + 1
            } else {
                f
            };
            assert(r == sqrt_round(n as int));
            Fx { raw: r as i64 }
        }
    }
}

/// A product of two `i64` values stays within the `rdiv_i128` input range.
proof fn lemma_mul_i64_range(a: int, b: int) by (nonlinear_arith)
    requires
        -0x8000_0000_0000_0000 <= a <= 0x7FFF_FFFF_FFFF_FFFF,
        -0x8000_0000_0000_0000 <= b <= 0x7FFF_FFFF_FFFF_FFFF,
    ensures
        -0x4000_0000_0000_0000_0000_0000_0000_0000 <= a * b
            <= 0x4000_0000_0000_0000_0000_0000_0000_0000,
{
}

/// Clamp a wide intermediate into the saturated `i64` range.
fn sat_i64(x: i128) -> (r: i64)
    ensures
        r as int == sat(x as int),
{
    if x > FX_SAT as i128 {
        FX_SAT
    } else if x < -(FX_SAT as i128) {
        -FX_SAT
    } else {
        x as i64
    }
}

/// Magnitude of a signed 128-bit value.
fn abs_u128(x: i128) -> (m: u128)
    ensures
        m as int == abs_i(x as int),
{
    if x >= 0 {
        x as u128
    } else {
        let y = -(x + 1);
        (y as u128) + 1
    }
}

/// The basic bracket on the rounded quotient: `2*d*rdiv_nn(n, d)` lies
/// within `d` of `2*n`.
pub proof fn lemma_rdiv_nn_bounds(n: int, d: int)
    requires
        n >= 0,
        d >= 1,
    ensures
        2 * n - d < 2 * d * rdiv_nn(n, d) <= 2 * n + d,
        rdiv_nn(n, d) >= 0,
{
    let q = (2 * n + d) / (2 * d);
    let r = (2 * n + d) % (2 * d);
    vstd::arithmetic::div_mod::lemma_fundamental_div_mod(2 * n + d, 2 * d);
    vstd::arithmetic::div_mod::lemma_mod_bound(2 * n + d, 2 * d);
    assert(q >= 0) by (nonlinear_arith)
        requires
            2 * d * q == 2 * n + d - r,
            0 <= r < 2 * d,
            n >= 0,
            d >= 1,
    ;
}

/// Rounding is exact on exact multiples.
pub proof fn lemma_rdiv_nn_exact(k: int, d: int)
    requires
        k >= 0,
        d >= 1,
    ensures
        rdiv_nn(k * d, d) == k,
{
    lemma_rdiv_nn_bounds(k * d, d);
    let q = rdiv_nn(k * d, d);
    assert(q == k) by (nonlinear_arith)
        requires
            2 * (k * d) - d < 2 * d * q <= 2 * (k * d) + d,
            d >= 1,
    ;
}

/// The rounded quotient never overshoots a known multiple bound.
pub proof fn lemma_rdiv_nn_le(n: int, k: int, d: int)
    requires
        0 <= n <= k * d,
        d >= 1,
    ensures
        rdiv_nn(n, d) <= k,
{
    lemma_rdiv_nn_bounds(n, d);
    let q = rdiv_nn(n, d);
    assert(q <= k) by (nonlinear_arith)
        requires
            2 * d * q <= 2 * n + d,
            n <= k * d,
            d >= 1,
    ;
}

/// Rounding to the nearest preserves order on nonnegative numerators.
pub proof fn lemma_rdiv_nn_mono(n1: int, n2: int, d: int)
    requires
        0 <= n1 <= n2,
        d >= 1,
    ensures
        rdiv_nn(n1, d) <= rdiv_nn(n2, d),
{
    lemma_rdiv_nn_bounds(n1, d);
    lemma_rdiv_nn_bounds(n2, d);
    let q1 = rdiv_nn(n1, d);
    let q2 = rdiv_nn(n2, d);
    assert(q1 <= q2) by (nonlinear_arith)
        requires
            2 * d * q1 <= 2 * n1 + d,
            n1 <= n2,
            2 * n2 - d < 2 * d * q2,
            d >= 1,
    ;
}

/// Scaling by a fixed nonnegative factor preserves order.
pub proof fn lemma_times_mono(a: Fx, x: Fx, y: Fx)
    requires
        0 <= a.raw,
        0 <= x.raw <= y.raw,
    ensures
        a.times_spec(x).raw <= a.times_spec(y).raw,
{
    assert(0 <= a.raw as int * x.raw as int <= a.raw as int * y.raw as int) by (nonlinear_arith)
        requires
            0 <= a.raw as int,
            0 <= x.raw as int <= y.raw as int,
    ;
    lemma_rdiv_nn_mono(a.raw as int * x.raw as int, a.raw as int * y.raw as int, SCALE as int);
}

/// Rounded division is exact on exact multiples, whatever the sign of
/// the numerator.
pub proof fn lemma_rdiv_exact(k: int, d: int)
    requires
        d >= 1,
    ensures
        rdiv(k * d, d) == k,
{
    if k >= 0 {
        assert(k * d >= 0) by (nonlinear_arith)
            requires
                k >= 0,
                d >= 1,
        ;
        lemma_rdiv_nn_exact(k, d);
    } else {
        assert(k * d < 0 && -(k * d) == (-k) * d) by (nonlinear_arith)
            requires
                k < 0,
                d >= 1,
        ;
        lemma_rdiv_nn_exact(-k, d);
    }
}

/// The rounded square root of a perfect square is exact.
pub proof fn lemma_sqrt_round_perfect(k: int)
    requires
        k >= 0,
    ensures
        sqrt_round(k * k) == k,
{
    assert(k * k >= 0 && k * k < (k + 1) * (k + 1)) by (nonlinear_arith)
        requires
            k >= 0,
    ;
    lemma_sqrt_floor_unique(k * k, k);
}

/// A product of unit-interval scalars stays in the unit interval, and
/// never exceeds either factor.
pub proof fn lemma_times_unit_interval(x: Fx, y: Fx)
    requires
        0 <= x.raw <= SCALE,
        0 <= y.raw <= SCALE,
    ensures
        0 <= x.times_spec(y).raw,
        x.times_spec(y).raw <= y.raw,
        x.times_spec(y).raw <= x.raw,
{
    let n = x.raw as int * y.raw as int;
    assert(0 <= x.raw as int * y.raw as int && x.raw as int * y.raw as int <= y.raw as int
        * SCALE as int && x.raw as int * y.raw as int <= x.raw as int * SCALE as int)
        by (nonlinear_arith)
        requires
            0 <= x.raw as int <= SCALE as int,
            0 <= y.raw as int <= SCALE as int,
    ;
    lemma_rdiv_nn_bounds(n, SCALE as int);
    lemma_rdiv_nn_le(n, y.raw as int, SCALE as int);
    lemma_rdiv_nn_le(n, x.raw as int, SCALE as int);
}

proof fn lemma_rdiv_sign(n: int, d: int)
    requires
        d != 0,
    ensures
        rdiv(n, d) == if (n < 0) != (d < 0) {
            -rdiv_nn(abs_i(n), abs_i(d))
        } else {
            rdiv_nn(abs_i(n), abs_i(d))
        },
{
    if n == 0 {
        lemma_rdiv_nn_exact(0, abs_i(d));
    }
}

/// `n / d` rounded to the nearest integer, ties away from zero.
fn rdiv_i128(n: i128, d: i128) -> (r: i128)
    requires
        d != 0,
        -0x4000_0000_0000_0000_0000_0000_0000_0000 <= n
            <= 0x4000_0000_0000_0000_0000_0000_0000_0000,
        -0x4000_0000_0000_0000_0000_0000_0000_0000 <= d
            <= 0x4000_0000_0000_0000_0000_0000_0000_0000,
    ensures
        r as int == rdiv(n as int, d as int),
{
    let neg = (n < 0) != (d < 0);
    let m = abs_u128(n);
    let dm = abs_u128(d);
    let q = (2 * m + dm) / (2 * dm);
    proof {
        assert(q <= m + 1) by (nonlinear_arith)
            requires
                dm >= 1,
                q == (2 * m + dm) as int / (2 * dm) as int,
        ;
        lemma_rdiv_sign(n as int, d as int);
    }
    let qi = q as i128;
    if neg {
        -qi
    } else {
        qi
    }
}

/// Largest `r` with `r * r <= n`, by binary search.
fn isqrt_u128(n: u128) -> (r: u128)
    requires
        n < 0x1_0000_0000_0000_0000_0000,
    ensures
        r as int == sqrt_floor(n as int),
        r * r <= n < (r + 1) * (r + 1),
{
    let mut lo: u128 = 0;
    let mut hi: u128 = 0x1_0000_0000_0000;
    proof {
        assert((0x1_0000_0000_0000 as int) * (0x1_0000_0000_0000 as int)
            == 0x1_0000_0000_0000_0000_0000_0000);
    }
    while lo + 1 < hi
        invariant
            lo < hi <= 0x1_0000_0000_0000,
            lo * lo <= n,
            n < hi * hi,
        decreases hi - lo,
    {
        let mid = lo + (hi - lo) / 2;
        proof {
            assert(mid * mid <= 0x1_0000_0000_0000_0000_0000_0000) by (nonlinear_arith)
                requires
                    0 <= mid <= 0x1_0000_0000_0000,
            ;
        }
        if mid * mid <= n {
            lo = mid;
        } else {
            hi = mid;
        }
    }
    proof {
        lemma_sqrt_floor_unique(n as int, lo as int);
    }
    lo
}

} // verus!
