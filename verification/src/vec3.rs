//! Three-component vectors over the fixed-point scalar, used for points,
//! directions and colors alike, together with color validation and the
//! decimal "r g b" output line.

use vstd::prelude::*;
use vstd::string::StringExecFns;
use crate::fixed::{Fx, fxr, rdiv, rdiv_nn, abs_i, SCALE, FX_SAT};
use crate::fixed::{lemma_rdiv_nn_le, lemma_rdiv_nn_bounds};

verus! {

/// A vector is also used as a color; channels live in `[0, 1]` at output.
pub type Color = Vec3;

/// A vector used as a point in space.
pub type Loc = Vec3;

#[derive(Clone, Copy, Debug, PartialEq, Eq, Structural)]
pub struct Vec3 {
    pub e0: Fx,
    pub e1: Fx,
    pub e2: Fx,
}

/// Raw tolerance on the computed length of a unit vector: 6/65536 is just
/// inside the 1e-4 band that the geometry relies on.
pub const UNIT_TOL: i64 = 6;

/// The computed length of `v` is within `UNIT_TOL` raw units of one.
pub open spec fn approx_unit(v: Vec3) -> bool {
    abs_i(v.length_spec().raw - SCALE) <= UNIT_TOL
}

/// All components lie within the saturation range (every arithmetic
/// result does).
pub open spec fn vec_bounded(v: Vec3) -> bool {
    &&& abs_i(v.e0.raw as int) <= FX_SAT as int
    &&& abs_i(v.e1.raw as int) <= FX_SAT as int
    &&& abs_i(v.e2.raw as int) <= FX_SAT as int
}

proof fn lemma_neg_square(a: int)
    by (nonlinear_arith)
    ensures
        (-a) * (-a) == a * a,
{
}

/// Negating a bounded vector negates its components exactly and keeps its
/// computed length.
pub proof fn lemma_neg_preserves_length(v: Vec3)
    requires
        vec_bounded(v),
    ensures
        vec_bounded(v.neg_spec()),
        v.neg_spec().length_spec() == v.length_spec(),
        approx_unit(v.neg_spec()) == approx_unit(v),
{
    lemma_neg_square(v.e0.raw as int);
    lemma_neg_square(v.e1.raw as int);
    lemma_neg_square(v.e2.raw as int);
    assert(v.neg_spec().length_squared_spec() == v.length_squared_spec());
}

/// Every channel lies in the unit interval.
pub open spec fn spec_valid_color(c: Color) -> bool {
    &&& 0 <= c.e0.raw <= SCALE
    &&& 0 <= c.e1.raw <= SCALE
    &&& 0 <= c.e2.raw <= SCALE
}

impl Vec3 {
    pub open spec fn plus_spec(self, o: Vec3) -> Vec3 {
        Vec3 {
            e0: self.e0.plus_spec(o.e0),
            e1: self.e1.plus_spec(o.e1),
            e2: self.e2.plus_spec(o.e2),
        }
    }

    pub open spec fn neg_spec(self) -> Vec3 {
        Vec3 { e0: self.e0.neg_spec(), e1: self.e1.neg_spec(), e2: self.e2.neg_spec() }
    }

    pub open spec fn minus_spec(self, o: Vec3) -> Vec3 {
        self.plus_spec(o.neg_spec())
    }

    pub open spec fn scale_spec(self, s: Fx) -> Vec3 {
        Vec3 {
            e0: self.e0.times_spec(s),
            e1: self.e1.times_spec(s),
            e2: self.e2.times_spec(s),
        }
    }

    /// Scalar division, componentwise: rounding each component once keeps
    /// normals of long vectors within the unit tolerance.
    pub open spec fn div_scalar_spec(self, s: Fx) -> Vec3 {
        Vec3 {
            e0: self.e0.div_spec(s),
            e1: self.e1.div_spec(s),
            e2: self.e2.div_spec(s),
        }
    }

    pub open spec fn dot_spec(self, o: Vec3) -> Fx {
        self.e0.times_spec(o.e0).plus_spec(self.e1.times_spec(o.e1)).plus_spec(
            self.e2.times_spec(o.e2),
        )
    }

    pub open spec fn hadamard_spec(self, o: Vec3) -> Vec3 {
        Vec3 {
            e0: self.e0.times_spec(o.e0),
            e1: self.e1.times_spec(o.e1),
            e2: self.e2.times_spec(o.e2),
        }
    }

    pub open spec fn length_squared_spec(self) -> Fx {
        self.dot_spec(self)
    }

    pub open spec fn length_spec(self) -> Fx {
        self.length_squared_spec().sqrt_spec()
    }

    pub open spec fn unit_vector_spec(self) -> Vec3 {
        self.div_scalar_spec(self.length_spec())
    }

    pub open spec fn cross_spec(self, o: Vec3) -> Vec3 {
        Vec3 {
            e0: self.e1.times_spec(o.e2).minus_spec(self.e2.times_spec(o.e1)),
            e1: self.e2.times_spec(o.e0).minus_spec(self.e0.times_spec(o.e2)),
            e2: self.e0.times_spec(o.e1).minus_spec(self.e1.times_spec(o.e0)),
        }
    }

    /// Both square-root tone mapping and channel validity speak of this.
    pub open spec fn gamma_correct_spec(self) -> Vec3 {
        Vec3 { e0: self.e0.sqrt_spec(), e1: self.e1.sqrt_spec(), e2: self.e2.sqrt_spec() }
    }

    pub open spec fn near_zero_spec(self) -> bool {
        self.length_squared_spec().raw == 0
    }

    pub fn new(e0: Fx, e1: Fx, e2: Fx) -> (r: Vec3)
        ensures
            r == (Vec3 { e0, e1, e2 }),
    {
        Vec3 { e0, e1, e2 }
    }

    /// The zero vector (black, as a color).
    pub fn zero() -> (r: Vec3)
        ensures
            r == (Vec3 { e0: Fx { raw: 0 }, e1: Fx { raw: 0 }, e2: Fx { raw: 0 } }),
    {
        Vec3 { e0: Fx { raw: 0 }, e1: Fx { raw: 0 }, e2: Fx { raw: 0 } }
    }

    pub fn plus(&self, o: &Vec3) -> (r: Vec3)
        ensures
            r == self.plus_spec(*o),
    {
        Vec3 { e0: self.e0.plus(o.e0), e1: self.e1.plus(o.e1), e2: self.e2.plus(o.e2) }
    }

    pub fn neg(&self) -> (r: Vec3)
        ensures
            r == self.neg_spec(),
    {
        Vec3 { e0: self.e0.neg(), e1: self.e1.neg(), e2: self.e2.neg() }
    }

    pub fn minus(&self, o: &Vec3) -> (r: Vec3)
        ensures
            r == self.minus_spec(*o),
    {
        let n = o.neg();
        self.plus(&n)
    }

    pub fn scale(&self, s: Fx) -> (r: Vec3)
        ensures
            r == self.scale_spec(s),
    {
        Vec3 { e0: self.e0.times(s), e1: self.e1.times(s), e2: self.e2.times(s) }
    }

    pub fn div_scalar(&self, s: Fx) -> (r: Vec3)
        ensures
            r == self.div_scalar_spec(s),
    {
        Vec3 { e0: self.e0.divide(s), e1: self.e1.divide(s), e2: self.e2.divide(s) }
    }

    pub fn dot(&self, rhs: &Vec3) -> (r: Fx)
        ensures
            r == self.dot_spec(*rhs),
    {
        self.e0.times(rhs.e0).plus(self.e1.times(rhs.e1)).plus(self.e2.times(rhs.e2))
    }

    pub fn hadamard(&self, rhs: &Vec3) -> (r: Vec3)
        ensures
            r == self.hadamard_spec(*rhs),
    {
        Vec3 { e0: self.e0.times(rhs.e0), e1: self.e1.times(rhs.e1), e2: self.e2.times(rhs.e2) }
    }

    pub fn length_squared(&self) -> (r: Fx)
        ensures
            r == self.length_squared_spec(),
    {
        self.dot(self)
    }

    pub fn length(&self) -> (r: Fx)
        ensures
            r == self.length_spec(),
    {
        self.length_squared().sqrt()
    }

    pub fn unit_vector(&self) -> (r: Vec3)
        ensures
            r == self.unit_vector_spec(),
    {
        let l = self.length();
        self.div_scalar(l)
    }

    pub fn cross(&self, o: &Vec3) -> (r: Vec3)
        ensures
            r == self.cross_spec(*o),
    {
        Vec3 {
            e0: self.e1.times(o.e2).minus(self.e2.times(o.e1)),
            e1: self.e2.times(o.e0).minus(self.e0.times(o.e2)),
            e2: self.e0.times(o.e1).minus(self.e1.times(o.e0)),
        }
    }

    /// Accumulate a sample into a running sum.
    pub fn add_cum(&mut self, c: &Vec3)
        ensures
            *final(self) == old(self).plus_spec(*c),
    {
        *self = self.plus(c);
    }

    /// True when the vector is too short for its direction to mean
    /// anything at this precision.
    pub fn is_near_zero(&self) -> (b: bool)
        ensures
            b == self.near_zero_spec(),
    {
        self.length_squared().raw == 0
    }

    /// Square-root tone curve, the gamma-2 correction applied to a pixel
    /// before quantization.
    pub fn gamma_correct(&self) -> (r: Vec3)
        ensures
            r == self.gamma_correct_spec(),
    {
        Vec3 { e0: self.e0.sqrt(), e1: self.e1.sqrt(), e2: self.e2.sqrt() }
    }

    /// Executable form of the unit-length tolerance test.
    pub fn is_approx_unit(&self) -> (b: bool)
        ensures
            b == approx_unit(*self),
    {
        let l = self.length();
        SCALE - UNIT_TOL <= l.raw && l.raw <= SCALE + UNIT_TOL
    }
}

/// A scalar clamped into the unit interval.
pub open spec fn clamp01_spec(x: Fx) -> Fx {
    if x.raw < 0 {
        Fx { raw: 0 }
    } else if x.raw > SCALE {
        Fx { raw: SCALE }
    } else {
        x
    }
}

/// Clamp a scalar into the unit interval.
pub fn clamp01(x: Fx) -> (r: Fx)
    ensures
        r == clamp01_spec(x),
{
    if x.raw < 0 {
        Fx { raw: 0 }
    } else if x.raw > SCALE {
        Fx { raw: SCALE }
    } else {
        x
    }
}

impl Vec3 {
    /// Channels clamped into the unit interval, the last defense before
    /// quantization.
    pub open spec fn clamp_unit_spec(self) -> Vec3 {
        Vec3 { e0: clamp01_spec(self.e0), e1: clamp01_spec(self.e1), e2: clamp01_spec(self.e2) }
    }

    /// Clamp every channel into the unit interval.
    pub fn clamp_unit(&self) -> (r: Vec3)
        ensures
            r == self.clamp_unit_spec(),
            spec_valid_color(r),
    {
        Vec3 { e0: clamp01(self.e0), e1: clamp01(self.e1), e2: clamp01(self.e2) }
    }
}

/// Channelwise order on colors.
pub open spec fn color_le(c1: Color, c2: Color) -> bool {
    &&& c1.e0.raw <= c2.e0.raw
    &&& c1.e1.raw <= c2.e1.raw
    &&& c1.e2.raw <= c2.e2.raw
}

/// Attenuation is monotone: a brighter incoming color never leaves a
/// darker attenuated color.
pub proof fn lemma_hadamard_mono(a: Color, c1: Color, c2: Color)
    requires
        0 <= a.e0.raw && 0 <= a.e1.raw && 0 <= a.e2.raw,
        0 <= c1.e0.raw && 0 <= c1.e1.raw && 0 <= c1.e2.raw,
        color_le(c1, c2),
    ensures
        color_le(a.hadamard_spec(c1), a.hadamard_spec(c2)),
{
    crate::fixed::lemma_times_mono(a.e0, c1.e0, c2.e0);
    crate::fixed::lemma_times_mono(a.e1, c1.e1, c2.e1);
    crate::fixed::lemma_times_mono(a.e2, c1.e2, c2.e2);
}

/// Attenuating a valid color by a valid color keeps it valid and never
/// brightens any channel: each bounce can only dim the path's light.
pub proof fn lemma_hadamard_attenuates(a: Color, c: Color)
    requires
        spec_valid_color(a),
        spec_valid_color(c),
    ensures
        spec_valid_color(a.hadamard_spec(c)),
        a.hadamard_spec(c).e0.raw <= c.e0.raw,
        a.hadamard_spec(c).e1.raw <= c.e1.raw,
        a.hadamard_spec(c).e2.raw <= c.e2.raw,
{
    crate::fixed::lemma_times_unit_interval(a.e0, c.e0);
    crate::fixed::lemma_times_unit_interval(a.e1, c.e1);
    crate::fixed::lemma_times_unit_interval(a.e2, c.e2);
}

/// Channel value scaled to `[0, 255]` and rounded, as quantization does.
pub open spec fn quantize_spec(x: Fx) -> int {
    rdiv(x.raw * 255, SCALE as int)
}

/// Decimal digit characters.
pub open spec fn digit_char(d: int) -> char {
    if d == 0 {
        '0'
    } else if d == 1 {
        '1'
    } else if d == 2 {
        '2'
    } else if d == 3 {
        '3'
    } else if d == 4 {
        '4'
    } else if d == 5 {
        '5'
    } else if d == 6 {
        '6'
    } else if d == 7 {
        '7'
    } else if d == 8 {
        '8'
    } else {
        '9'
    }
}

/// Decimal digits of `n`, most significant first.
pub open spec fn dec_seq(n: int) -> Seq<char>
    decreases n,
    when n >= 0
{
    if n < 10 {
        seq![digit_char(n)]
    } else {
        dec_seq(n / 10).push(digit_char(n % 10))
    }
}

/// The "r g b" line for a color, channels quantized to 0..=255.
pub open spec fn spec_color_string(c: Color) -> Seq<char> {
    dec_seq(quantize_spec(c.e0)) + seq![' '] + dec_seq(quantize_spec(c.e1)) + seq![' ']
        + dec_seq(quantize_spec(c.e2))
}

/// All channels of the color lie in the unit interval.
pub fn valid_color(c: &Color) -> (b: bool)
    ensures
        b == spec_valid_color(*c),
{
    c.e0.raw <= SCALE && c.e0.raw >= 0 && c.e1.raw <= SCALE && c.e1.raw >= 0 && c.e2.raw <= SCALE
        && c.e2.raw >= 0
}

fn digit_str(d: u32) -> (s: &'static str)
    requires
        d < 10,
    ensures
        s@ =~= seq![digit_char(d as int)],
{
    proof {
        reveal_strlit("0");
        reveal_strlit("1");
        reveal_strlit("2");
        reveal_strlit("3");
        reveal_strlit("4");
        reveal_strlit("5");
        reveal_strlit("6");
        reveal_strlit("7");
        reveal_strlit("8");
        reveal_strlit("9");
    }
    match d {
        0 => "0",
        1 => "1",
        2 => "2",
        3 => "3",
        4 => "4",
        5 => "5",
        6 => "6",
        7 => "7",
        8 => "8",
        _ => "9",
    }
}

fn dec_string(n: u32) -> (s: String)
    ensures
        s@ == dec_seq(n as int),
    decreases n,
{
    if n < 10 {
        let mut s = String::new();
        s.append(digit_str(n));
        proof {
            assert(s@ =~= dec_seq(n as int));
        }
        s
    } else {
        let mut s = dec_string(n / 10);
        s.append(digit_str(n % 10));
        proof {
            assert(s@ =~= dec_seq(n as int));
        }
        s
    }
}

/// Quantize one channel of a valid color to an integer in 0..=255.
fn quantize(x: Fx) -> (q: u32)
    requires
        0 <= x.raw <= SCALE,
    ensures
        q as int == quantize_spec(x),
        q <= 255,
{
    let n: i64 = x.raw * 255;
    let q64: i64 = (2 * n + SCALE) / (2 * SCALE);
    proof {
        assert(quantize_spec(x) == rdiv_nn(n as int, SCALE as int));
        lemma_rdiv_nn_bounds(n as int, SCALE as int);
        lemma_rdiv_nn_le(n as int, 255, SCALE as int);
    }
    q64 as u32
}

/// Render a color as its output line, rejecting any color with a channel
/// outside `[0, 1]`: exactly the invalid colors yield `None`.
pub fn color_string_checked(c: &Color) -> (r: Option<String>)
    ensures
        match r {
            Some(s) => spec_valid_color(*c) && s@ == spec_color_string(*c),
            None => !spec_valid_color(*c),
        },
{
    if valid_color(c) {
        Some(color_string(c))
    } else {
        None
    }
}

/// Render a color as its decimal `"r g b"` output line; the color must be
/// valid (each channel in `[0, 1]`).
pub fn color_string(c: &Color) -> (s: String)
    requires
        spec_valid_color(*c),
    ensures
        s@ == spec_color_string(*c),
{
    let q0 = quantize(c.e0);
    let q1 = quantize(c.e1);
    let q2 = quantize(c.e2);
    let mut s = dec_string(q0);
    s.append(" ");
    let s1 = dec_string(q1);
    s.append(s1.as_str());
    s.append(" ");
    let s2 = dec_string(q2);
    s.append(s2.as_str());
    proof {
        reveal_strlit(" ");
        assert(s@ =~= spec_color_string(*c));
    }
    s
}

} // verus!
