//! Fixed-point pose arithmetic.
//!
//! A bone transform is a 2x2 linear map plus a translation. The linear
//! entries are fixed-point numbers with [`FX_ONE`] as 1.0; translations
//! and point coordinates are plain integer units. Products are computed
//! exactly in wide integers, scaled back by truncation toward zero, and
//! results are saturated into the 32-bit range, so every operation is
//! total and deterministic.

use vstd::prelude::*;

verus! {

/// The fixed-point representation of 1.0 in a transform's linear entries.
pub const FX_ONE: i32 = 4096;

/// Fixed-point product, scaled back and truncated toward zero.
pub open spec fn fxmul(a: int, b: int) -> int {
    let p = a * b;
    if p >= 0 {
        p / (FX_ONE as int)
    } else {
        -((-p) / (FX_ONE as int))
    }
}

/// Saturation into the 32-bit signed range.
pub open spec fn sat32(v: int) -> int {
    if v > i32::MAX as int {
        i32::MAX as int
    } else if v < i32::MIN as int {
        i32::MIN as int
    } else {
        v
    }
}

proof fn lemma_mul_bound(a: int, b: int)
    by (nonlinear_arith)
    requires
        i32::MIN <= a <= i32::MAX,
        i32::MIN <= b <= i32::MAX,
    ensures
        -0x4000000000000000 <= a * b <= 0x4000000000000000,
{
}

proof fn lemma_div_shrinks(p: int)
    by (nonlinear_arith)
    requires
        0 <= p <= 0x4000000000000000,
    ensures
        0 <= p / (FX_ONE as int) <= 0x4000000000000,
{
}

/// Bounds of a fixed-point product of two 32-bit values.
proof fn lemma_fxmul_bound(a: int, b: int)
    requires
        i32::MIN <= a <= i32::MAX,
        i32::MIN <= b <= i32::MAX,
    ensures
        -0x4000000000000 <= fxmul(a, b) <= 0x4000000000000,
{
    lemma_mul_bound(a, b);
    let p = a * b;
    if p >= 0 {
        lemma_div_shrinks(p);
    } else {
        lemma_div_shrinks(-p);
    }
}

/// Fixed-point product of two 32-bit values, exact in 64 bits.
fn fxmul_exec(a: i32, b: i32) -> (r: i64)
    ensures
        r == fxmul(a as int, b as int),
        -0x4000000000000 <= r <= 0x4000000000000,
{
    proof {
        lemma_mul_bound(a as int, b as int);
        lemma_fxmul_bound(a as int, b as int);
    }
    let p: i64 = (a as i64) * (b as i64);
    if p >= 0 {
        let mag: u64 = p as u64;
        let q: u64 = mag / 4096;
        proof {
            lemma_div_shrinks(p as int);
        }
        q as i64
    } else {
        let mag: u64 = (-p) as u64;
        let q: u64 = mag / 4096;
        proof {
            lemma_div_shrinks(-(p as int));
        }
        -(q as i64)
    }
}

/// Saturation of a 64-bit intermediate into 32 bits.
pub(crate) fn sat32_exec(v: i64) -> (r: i32)
    ensures
        r == sat32(v as int),
{
    if v > i32::MAX as i64 {
        i32::MAX
    } else if v < i32::MIN as i64 {
        i32::MIN
    } else {
        v as i32
    }
}

/// A bone transform: the linear map `[a b; c d]` (fixed-point, `FX_ONE`
/// is 1.0) and the translation `(x, y)` in plain units. A point `(px,
/// py)` maps to `(a*px + b*py + x, c*px + d*py + y)`.
#[derive(Debug, Copy, Clone, PartialEq, Eq, Structural)]
pub struct BonePose {
    pub a: i32,
    pub b: i32,
    pub c: i32,
    pub d: i32,
    pub x: i32,
    pub y: i32,
}

/// The identity transform.
pub open spec fn identity_pose() -> BonePose {
    BonePose { a: FX_ONE, b: 0, c: 0, d: FX_ONE, x: 0, y: 0 }
}

/// Composition `p` after `l`: the transform of a child bone with local
/// transform `l` under a parent with world transform `p`. Each entry is
/// the exact fixed-point expression, saturated into 32 bits.
pub open spec fn compose(p: BonePose, l: BonePose) -> BonePose {
    BonePose {
        a: sat32(fxmul(p.a as int, l.a as int) + fxmul(p.b as int, l.c as int)) as i32,
        b: sat32(fxmul(p.a as int, l.b as int) + fxmul(p.b as int, l.d as int)) as i32,
        c: sat32(fxmul(p.c as int, l.a as int) + fxmul(p.d as int, l.c as int)) as i32,
        d: sat32(fxmul(p.c as int, l.b as int) + fxmul(p.d as int, l.d as int)) as i32,
        x: sat32(fxmul(p.a as int, l.x as int) + fxmul(p.b as int, l.y as int) + p.x) as i32,
        y: sat32(fxmul(p.c as int, l.x as int) + fxmul(p.d as int, l.y as int) + p.y) as i32,
    }
}

/// Where `t` sends the point `(px, py)`; the x coordinate.
pub open spec fn apply_x(t: BonePose, px: int, py: int) -> int {
    sat32(fxmul(t.a as int, px) + fxmul(t.b as int, py) + t.x)
}

/// Where `t` sends the point `(px, py)`; the y coordinate.
pub open spec fn apply_y(t: BonePose, px: int, py: int) -> int {
    sat32(fxmul(t.c as int, px) + fxmul(t.d as int, py) + t.y)
}

impl BonePose {
    /// The identity transform.
    pub fn identity() -> (r: BonePose)
        ensures
            r == identity_pose(),
    {
        BonePose { a: FX_ONE, b: 0, c: 0, d: FX_ONE, x: 0, y: 0 }
    }

    /// Composition `self` after `local`, as for a child bone under this
    /// parent's world transform.
    pub fn chain(&self, local: &BonePose) -> (r: BonePose)
        ensures
            r == compose(*self, *local),
    {
        BonePose {
            a: sat32_exec(fxmul_exec(self.a, local.a) + fxmul_exec(self.b, local.c)),
            b: sat32_exec(fxmul_exec(self.a, local.b) + fxmul_exec(self.b, local.d)),
            c: sat32_exec(fxmul_exec(self.c, local.a) + fxmul_exec(self.d, local.c)),
            d: sat32_exec(fxmul_exec(self.c, local.b) + fxmul_exec(self.d, local.d)),
            x: sat32_exec(fxmul_exec(self.a, local.x) + fxmul_exec(self.b, local.y) + self.x as i64),
            y: sat32_exec(fxmul_exec(self.c, local.x) + fxmul_exec(self.d, local.y) + self.y as i64),
        }
    }

    /// Where this transform sends the point `(px, py)`.
    pub fn transform_point(&self, px: i32, py: i32) -> (r: (i32, i32))
        ensures
            r.0 == apply_x(*self, px as int, py as int),
            r.1 == apply_y(*self, px as int, py as int),
    {
        (
            sat32_exec(fxmul_exec(self.a, px) + fxmul_exec(self.b, py) + self.x as i64),
            sat32_exec(fxmul_exec(self.c, px) + fxmul_exec(self.d, py) + self.y as i64),
        )
    }
}

/// A color with 8-bit channels; 255 is full intensity.
#[derive(Debug, Copy, Clone, PartialEq, Eq, Structural)]
pub struct Color {
    pub r: u8,
    pub g: u8,
    pub b: u8,
    pub a: u8,
}

/// One channel of a color product: scaled so that 255 acts as 1.0.
pub open spec fn ch_mul(x: u8, y: u8) -> int {
    (x * y) / 255
}

/// Component-wise color product, the tint composition rule.
pub open spec fn color_mul(p: Color, q: Color) -> Color {
    Color {
        r: ch_mul(p.r, q.r) as u8,
        g: ch_mul(p.g, q.g) as u8,
        b: ch_mul(p.b, q.b) as u8,
        a: ch_mul(p.a, q.a) as u8,
    }
}

proof fn lemma_ch_mul_bound(x: int, y: int)
    by (nonlinear_arith)
    requires
        0 <= x < 256,
        0 <= y < 256,
    ensures
        0 <= x * y <= 65025,
        0 <= (x * y) / 255 < 256,
{
}

fn ch_mul_exec(x: u8, y: u8) -> (r: u8)
    ensures
        r == ch_mul(x, y),
{
    proof {
        lemma_ch_mul_bound(x as int, y as int);
    }
    ((x as u32) * (y as u32) / 255) as u8
}

impl Color {
    /// Full-intensity white, the neutral tint.
    pub fn white() -> (r: Color)
        ensures
            r == (Color { r: 255u8, g: 255u8, b: 255u8, a: 255u8 }),
    {
        Color { r: 255, g: 255, b: 255, a: 255 }
    }

    /// Component-wise product with another tint.
    pub fn tint(&self, other: &Color) -> (r: Color)
        ensures
            r == color_mul(*self, *other),
    {
        Color {
            r: ch_mul_exec(self.r, other.r),
            g: ch_mul_exec(self.g, other.g),
            b: ch_mul_exec(self.b, other.b),
            a: ch_mul_exec(self.a, other.a),
        }
    }
}

} // verus!
