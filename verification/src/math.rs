//! Vector math over fixed-point scalars, and a small deterministic
//! pseudo-random generator.
//!
//! Components are fixed-point numbers (see [`crate::fixed`]): an `i64`
//! counting millionths of a unit.  Every operation returns a new value and is
//! specified exactly by a spec function of the same shape, so vector
//! arithmetic is deterministic and total.

use vstd::prelude::*;
use crate::fixed::{
    FX_ONE, clip, fx_add_s, fx_sub_s, fx_neg_s, fx_mul_s, fx_div_s, sqrt_i,
    fx_add, fx_sub, fx_mul, fx_div, isqrt_u128,
};

verus! {

/// A three-component vector of fixed-point scalars.
#[derive(Debug, Clone, Copy, PartialEq, Eq, Structural)]
pub struct Vector3D {
    pub x: i64,
    pub y: i64,
    pub z: i64,
}

/// A two-component vector of fixed-point scalars.
#[derive(Debug, Clone, Copy, PartialEq, Eq, Structural)]
pub struct Vector2D {
    pub x: i64,
    pub y: i64,
}

pub open spec fn v3(x: int, y: int, z: int) -> Vector3D {
    Vector3D { x: x as i64, y: y as i64, z: z as i64 }
}

pub open spec fn v3_zero() -> Vector3D {
    v3(0, 0, 0)
}

pub open spec fn v3_add(a: Vector3D, b: Vector3D) -> Vector3D {
    v3(fx_add_s(a.x as int, b.x as int), fx_add_s(a.y as int, b.y as int), fx_add_s(
        a.z as int,
        b.z as int,
    ))
}

pub open spec fn v3_sub(a: Vector3D, b: Vector3D) -> Vector3D {
    v3(fx_sub_s(a.x as int, b.x as int), fx_sub_s(a.y as int, b.y as int), fx_sub_s(
        a.z as int,
        b.z as int,
    ))
}

pub open spec fn v3_scale(a: Vector3D, s: int) -> Vector3D {
    v3(fx_mul_s(a.x as int, s), fx_mul_s(a.y as int, s), fx_mul_s(a.z as int, s))
}

pub open spec fn v3_div_scalar(a: Vector3D, s: int) -> Vector3D {
    v3(fx_div_s(a.x as int, s), fx_div_s(a.y as int, s), fx_div_s(a.z as int, s))
}

pub open spec fn v3_dot(a: Vector3D, b: Vector3D) -> int {
    fx_add_s(
        fx_add_s(fx_mul_s(a.x as int, b.x as int), fx_mul_s(a.y as int, b.y as int)),
        fx_mul_s(a.z as int, b.z as int),
    )
}

pub open spec fn v3_cross(a: Vector3D, b: Vector3D) -> Vector3D {
    v3(
        fx_sub_s(fx_mul_s(a.y as int, b.z as int), fx_mul_s(a.z as int, b.y as int)),
        fx_sub_s(fx_mul_s(a.z as int, b.x as int), fx_mul_s(a.x as int, b.z as int)),
        fx_sub_s(fx_mul_s(a.x as int, b.y as int), fx_mul_s(a.y as int, b.x as int)),
    )
}

/// The magnitude: the integer square root of the raw sum of squares.  The
/// squares carry twice the fixed-point scale, so the root is again a
/// fixed-point scalar.
pub open spec fn v3_mag(a: Vector3D) -> int {
    clip(
        sqrt_i(
            (a.x as int * a.x as int + a.y as int * a.y as int + a.z as int * a.z as int) as nat,
        ) as int,
    )
}

pub open spec fn v3_mag_sq(a: Vector3D) -> int {
    v3_dot(a, a)
}

pub open spec fn v3_normalize(a: Vector3D) -> Vector3D {
    let m = v3_mag(a);
    if m > 0 {
        v3_div_scalar(a, m)
    } else {
        v3_zero()
    }
}

pub open spec fn v3_clamp_mag(a: Vector3D, max: int) -> Vector3D {
    if v3_mag(a) > max {
        v3_scale(v3_normalize(a), max)
    } else {
        a
    }
}

pub open spec fn v3_lerp(a: Vector3D, b: Vector3D, t: int) -> Vector3D {
    v3_add(a, v3_scale(v3_sub(b, a), t))
}

pub open spec fn v3_reflect(a: Vector3D, n: Vector3D) -> Vector3D {
    v3_sub(a, v3_scale(n, fx_mul_s(2 * FX_ONE as int, v3_dot(a, n))))
}

pub open spec fn v3_project(a: Vector3D, onto: Vector3D) -> Vector3D {
    let d = v3_dot(a, onto);
    let msq = v3_mag_sq(onto);
    if msq > 0 {
        v3_scale(onto, fx_div_s(d, msq))
    } else {
        v3_zero()
    }
}

pub open spec fn v3_dist(a: Vector3D, b: Vector3D) -> int {
    v3_mag(v3_sub(a, b))
}

impl Vector3D {
    pub fn new(x: i64, y: i64, z: i64) -> (r: Self)
        ensures
            r == (Vector3D { x, y, z }),
    {
        Vector3D { x, y, z }
    }

    pub fn zero() -> (r: Self)
        ensures
            r == v3_zero(),
    {
        Vector3D { x: 0, y: 0, z: 0 }
    }

    pub fn one() -> (r: Self)
        ensures
            r == v3(FX_ONE as int, FX_ONE as int, FX_ONE as int),
    {
        Vector3D { x: FX_ONE, y: FX_ONE, z: FX_ONE }
    }

    pub fn up() -> (r: Self)
        ensures
            r == v3(0, FX_ONE as int, 0),
    {
        Vector3D { x: 0, y: FX_ONE, z: 0 }
    }

    pub fn down() -> (r: Self)
        ensures
            r == v3(0, -(FX_ONE as int), 0),
    {
        Vector3D { x: 0, y: -FX_ONE, z: 0 }
    }

    pub fn left() -> (r: Self)
        ensures
            r == v3(-(FX_ONE as int), 0, 0),
    {
        Vector3D { x: -FX_ONE, y: 0, z: 0 }
    }

    pub fn right() -> (r: Self)
        ensures
            r == v3(FX_ONE as int, 0, 0),
    {
        Vector3D { x: FX_ONE, y: 0, z: 0 }
    }

    pub fn forward() -> (r: Self)
        ensures
            r == v3(0, 0, -(FX_ONE as int)),
    {
        Vector3D { x: 0, y: 0, z: -FX_ONE }
    }

    pub fn back() -> (r: Self)
        ensures
            r == v3(0, 0, FX_ONE as int),
    {
        Vector3D { x: 0, y: 0, z: FX_ONE }
    }

    pub fn add(self, other: Self) -> (r: Self)
        ensures
            r == v3_add(self, other),
    {
        Vector3D {
            x: fx_add(self.x, other.x),
            y: fx_add(self.y, other.y),
            z: fx_add(self.z, other.z),
        }
    }

    pub fn sub(self, other: Self) -> (r: Self)
        ensures
            r == v3_sub(self, other),
    {
        Vector3D {
            x: fx_sub(self.x, other.x),
            y: fx_sub(self.y, other.y),
            z: fx_sub(self.z, other.z),
        }
    }

    pub fn scale(self, s: i64) -> (r: Self)
        ensures
            r == v3_scale(self, s as int),
    {
        Vector3D { x: fx_mul(self.x, s), y: fx_mul(self.y, s), z: fx_mul(self.z, s) }
    }

    pub fn div_scalar(self, s: i64) -> (r: Self)
        ensures
            r == v3_div_scalar(self, s as int),
    {
        Vector3D { x: fx_div(self.x, s), y: fx_div(self.y, s), z: fx_div(self.z, s) }
    }

    pub fn dot(&self, other: &Self) -> (r: i64)
        ensures
            r as int == v3_dot(*self, *other),
    {
        fx_add(
            fx_add(fx_mul(self.x, other.x), fx_mul(self.y, other.y)),
            fx_mul(self.z, other.z),
        )
    }

    pub fn cross(&self, other: &Self) -> (r: Self)
        ensures
            r == v3_cross(*self, *other),
    {
        Vector3D {
            x: fx_sub(fx_mul(self.y, other.z), fx_mul(self.z, other.y)),
            y: fx_sub(fx_mul(self.z, other.x), fx_mul(self.x, other.z)),
            z: fx_sub(fx_mul(self.x, other.y), fx_mul(self.y, other.x)),
        }
    }

    pub fn magnitude(&self) -> (r: i64)
        ensures
            r as int == v3_mag(*self),
    {
        proof {
            lemma_square_bound(self.x as int);
            lemma_square_bound(self.y as int);
            lemma_square_bound(self.z as int);
        }
        let xx: i128 = (self.x as i128) * (self.x as i128);
        let yy: i128 = (self.y as i128) * (self.y as i128);
        let zz: i128 = (self.z as i128) * (self.z as i128);
        let sum: u128 = (xx as u128) + (yy as u128) + (zz as u128);
        let root: u64 = isqrt_u128(sum);
        if root > i64::MAX as u64 {
            i64::MAX
        } else {
            root as i64
        }
    }

    pub fn magnitude_squared(&self) -> (r: i64)
        ensures
            r as int == v3_mag_sq(*self),
    {
        self.dot(self)
    }

    pub fn normalize(&self) -> (r: Self)
        ensures
            r == v3_normalize(*self),
    {
        let m: i64 = self.magnitude();
        if m > 0 {
            Vector3D { x: fx_div(self.x, m), y: fx_div(self.y, m), z: fx_div(self.z, m) }
        } else {
            Vector3D { x: 0, y: 0, z: 0 }
        }
    }

    /// The in-place variant of `normalize`.
    pub fn normalized(&mut self)
        ensures
            *final(self) == v3_normalize(*old(self)),
    {
        let r: Vector3D = self.normalize();
        self.x = r.x;
        self.y = r.y;
        self.z = r.z;
    }

    pub fn distance(&self, other: &Self) -> (r: i64)
        ensures
            r as int == v3_dist(*self, *other),
    {
        self.sub(*other).magnitude()
    }

    pub fn distance_squared(&self, other: &Self) -> (r: i64)
        ensures
            r as int == v3_mag_sq(v3_sub(*self, *other)),
    {
        self.sub(*other).magnitude_squared()
    }

    pub fn lerp(&self, other: &Self, t: i64) -> (r: Self)
        ensures
            r == v3_lerp(*self, *other, t as int),
    {
        self.add(other.sub(*self).scale(t))
    }

    /// Reflection across a normal, which the caller supplies unit-length.
    pub fn reflect(&self, normal: &Self) -> (r: Self)
        ensures
            r == v3_reflect(*self, *normal),
    {
        self.sub(normal.scale(fx_mul(2 * FX_ONE, self.dot(normal))))
    }

    pub fn project(&self, onto: &Self) -> (r: Self)
        ensures
            r == v3_project(*self, *onto),
    {
        let d: i64 = self.dot(onto);
        let msq: i64 = onto.magnitude_squared();
        if msq > 0 {
            onto.scale(fx_div(d, msq))
        } else {
            Vector3D { x: 0, y: 0, z: 0 }
        }
    }

    pub fn clamp_magnitude(&self, max_magnitude: i64) -> (r: Self)
        ensures
            r == v3_clamp_mag(*self, max_magnitude as int),
    {
        let m: i64 = self.magnitude();
        if m > max_magnitude {
            self.normalize().scale(max_magnitude)
        } else {
            *self
        }
    }

    /// Drops the `z` component.
    pub fn to_vector2d(&self) -> (r: Vector2D)
        ensures
            r == (Vector2D { x: self.x, y: self.y }),
    {
        Vector2D { x: self.x, y: self.y }
    }
}

/// `x * x` for an `i64` stays comfortably inside `i128`.
proof fn lemma_square_bound(x: int)
    requires
        -0x8000_0000_0000_0000 <= x <= 0x7fff_ffff_ffff_ffff,
    ensures
        0 <= x * x <= 0x4000_0000_0000_0000_0000_0000_0000_0000,
{
    assert(0 <= x * x <= 0x4000_0000_0000_0000_0000_0000_0000_0000) by (nonlinear_arith)
        requires
            -0x8000_0000_0000_0000 <= x <= 0x7fff_ffff_ffff_ffff;
}

pub open spec fn v2(x: int, y: int) -> Vector2D {
    Vector2D { x: x as i64, y: y as i64 }
}

pub open spec fn v2_zero() -> Vector2D {
    v2(0, 0)
}

pub open spec fn v2_add(a: Vector2D, b: Vector2D) -> Vector2D {
    v2(fx_add_s(a.x as int, b.x as int), fx_add_s(a.y as int, b.y as int))
}

pub open spec fn v2_sub(a: Vector2D, b: Vector2D) -> Vector2D {
    v2(fx_sub_s(a.x as int, b.x as int), fx_sub_s(a.y as int, b.y as int))
}

pub open spec fn v2_scale(a: Vector2D, s: int) -> Vector2D {
    v2(fx_mul_s(a.x as int, s), fx_mul_s(a.y as int, s))
}

pub open spec fn v2_dot(a: Vector2D, b: Vector2D) -> int {
    fx_add_s(fx_mul_s(a.x as int, b.x as int), fx_mul_s(a.y as int, b.y as int))
}

/// The 2D cross product: the `z` component of the corresponding 3D one.
pub open spec fn v2_cross(a: Vector2D, b: Vector2D) -> int {
    fx_sub_s(fx_mul_s(a.x as int, b.y as int), fx_mul_s(a.y as int, b.x as int))
}

pub open spec fn v2_mag(a: Vector2D) -> int {
    clip(sqrt_i((a.x as int * a.x as int + a.y as int * a.y as int) as nat) as int)
}

pub open spec fn v2_mag_sq(a: Vector2D) -> int {
    v2_dot(a, a)
}

pub open spec fn v2_normalize(a: Vector2D) -> Vector2D {
    let m = v2_mag(a);
    if m > 0 {
        v2(fx_div_s(a.x as int, m), fx_div_s(a.y as int, m))
    } else {
        v2_zero()
    }
}

pub open spec fn v2_clamp_mag(a: Vector2D, max: int) -> Vector2D {
    if v2_mag(a) > max {
        v2_scale(v2_normalize(a), max)
    } else {
        a
    }
}

impl Vector2D {
    pub fn new(x: i64, y: i64) -> (r: Self)
        ensures
            r == (Vector2D { x, y }),
    {
        Vector2D { x, y }
    }

    pub fn zero() -> (r: Self)
        ensures
            r == v2_zero(),
    {
        Vector2D { x: 0, y: 0 }
    }

    pub fn one() -> (r: Self)
        ensures
            r == v2(FX_ONE as int, FX_ONE as int),
    {
        Vector2D { x: FX_ONE, y: FX_ONE }
    }

    pub fn up() -> (r: Self)
        ensures
            r == v2(0, FX_ONE as int),
    {
        Vector2D { x: 0, y: FX_ONE }
    }

    pub fn down() -> (r: Self)
        ensures
            r == v2(0, -(FX_ONE as int)),
    {
        Vector2D { x: 0, y: -FX_ONE }
    }

    pub fn left() -> (r: Self)
        ensures
            r == v2(-(FX_ONE as int), 0),
    {
        Vector2D { x: -FX_ONE, y: 0 }
    }

    pub fn right() -> (r: Self)
        ensures
            r == v2(FX_ONE as int, 0),
    {
        Vector2D { x: FX_ONE, y: 0 }
    }

    pub fn add(self, other: Self) -> (r: Self)
        ensures
            r == v2_add(self, other),
    {
        Vector2D { x: fx_add(self.x, other.x), y: fx_add(self.y, other.y) }
    }

    pub fn sub(self, other: Self) -> (r: Self)
        ensures
            r == v2_sub(self, other),
    {
        Vector2D { x: fx_sub(self.x, other.x), y: fx_sub(self.y, other.y) }
    }

    pub fn scale(self, s: i64) -> (r: Self)
        ensures
            r == v2_scale(self, s as int),
    {
        Vector2D { x: fx_mul(self.x, s), y: fx_mul(self.y, s) }
    }

    pub fn dot(&self, other: &Self) -> (r: i64)
        ensures
            r as int == v2_dot(*self, *other),
    {
        fx_add(fx_mul(self.x, other.x), fx_mul(self.y, other.y))
    }

    pub fn cross(&self, other: &Self) -> (r: i64)
        ensures
            r as int == v2_cross(*self, *other),
    {
        fx_sub(fx_mul(self.x, other.y), fx_mul(self.y, other.x))
    }

    pub fn magnitude(&self) -> (r: i64)
        ensures
            r as int == v2_mag(*self),
    {
        proof {
            lemma_square_bound(self.x as int);
            lemma_square_bound(self.y as int);
        }
        let xx: i128 = (self.x as i128) * (self.x as i128);
        let yy: i128 = (self.y as i128) * (self.y as i128);
        let sum: u128 = (xx as u128) + (yy as u128);
        let root: u64 = isqrt_u128(sum);
        if root > i64::MAX as u64 {
            i64::MAX
        } else {
            root as i64
        }
    }

    pub fn magnitude_squared(&self) -> (r: i64)
        ensures
            r as int == v2_mag_sq(*self),
    {
        self.dot(self)
    }

    pub fn normalize(&self) -> (r: Self)
        ensures
            r == v2_normalize(*self),
    {
        let m: i64 = self.magnitude();
        if m > 0 {
            Vector2D { x: fx_div(self.x, m), y: fx_div(self.y, m) }
        } else {
            Vector2D { x: 0, y: 0 }
        }
    }

    /// The in-place variant of `normalize`.
    pub fn normalized(&mut self)
        ensures
            *final(self) == v2_normalize(*old(self)),
    {
        let r: Vector2D = self.normalize();
        self.x = r.x;
        self.y = r.y;
    }

    pub fn distance(&self, other: &Self) -> (r: i64)
        ensures
            r as int == v2_mag(v2_sub(*self, *other)),
    {
        self.sub(*other).magnitude()
    }

    pub fn distance_squared(&self, other: &Self) -> (r: i64)
        ensures
            r as int == v2_mag_sq(v2_sub(*self, *other)),
    {
        self.sub(*other).magnitude_squared()
    }

    pub fn lerp(&self, other: &Self, t: i64) -> (r: Self)
        ensures
            r == v2_add(*self, v2_scale(v2_sub(*other, *self), t as int)),
    {
        self.add(other.sub(*self).scale(t))
    }

    /// Reflection across a normal, which the caller supplies unit-length.
    pub fn reflect(&self, normal: &Self) -> (r: Self)
        ensures
            r == v2_sub(*self, v2_scale(*normal, fx_mul_s(2 * FX_ONE as int, v2_dot(*self, *normal)))),
    {
        self.sub(normal.scale(fx_mul(2 * FX_ONE, self.dot(normal))))
    }

    pub fn project(&self, onto: &Self) -> (r: Self)
        ensures
            r == (if v2_mag_sq(*onto) > 0 {
                v2_scale(*onto, fx_div_s(v2_dot(*self, *onto), v2_mag_sq(*onto)))
            } else {
                v2_zero()
            }),
    {
        let d: i64 = self.dot(onto);
        let msq: i64 = onto.magnitude_squared();
        if msq > 0 {
            onto.scale(fx_div(d, msq))
        } else {
            Vector2D { x: 0, y: 0 }
        }
    }

    /// The counterclockwise perpendicular.
    pub fn perpendicular(&self) -> (r: Self)
        ensures
            r == v2(fx_neg_s(self.y as int), self.x as int),
    {
        Vector2D { x: crate::fixed::fx_neg(self.y), y: self.x }
    }

    pub fn clamp_magnitude(&self, max_magnitude: i64) -> (r: Self)
        ensures
            r == v2_clamp_mag(*self, max_magnitude as int),
    {
        let m: i64 = self.magnitude();
        if m > max_magnitude {
            self.normalize().scale(max_magnitude)
        } else {
            *self
        }
    }
}

/// Clamping of a scalar to a closed range; when the bounds cross, the lower
/// one wins.
pub open spec fn clamp_s(value: int, min: int, max: int) -> int {
    if value < min {
        min
    } else if value > max {
        max
    } else {
        value
    }
}

pub fn clamp(value: i64, min: i64, max: i64) -> (r: i64)
    ensures
        r as int == clamp_s(value as int, min as int, max as int),
{
    if value < min {
        min
    } else if value > max {
        max
    } else {
        value
    }
}

pub open spec fn lerp_s(a: int, b: int, t: int) -> int {
    fx_add_s(a, fx_mul_s(fx_sub_s(b, a), t))
}

pub fn lerp(a: i64, b: i64, t: i64) -> (r: i64)
    ensures
        r as int == lerp_s(a as int, b as int, t as int),
{
    fx_add(a, fx_mul(fx_sub(b, a), t))
}

pub open spec fn smoothstep_s(edge0: int, edge1: int, x: int) -> int {
    let t = clamp_s(fx_div_s(fx_sub_s(x, edge0), fx_sub_s(edge1, edge0)), 0, FX_ONE as int);
    fx_mul_s(fx_mul_s(t, t), fx_sub_s(3 * FX_ONE as int, fx_mul_s(2 * FX_ONE as int, t)))
}

pub fn smoothstep(edge0: i64, edge1: i64, x: i64) -> (r: i64)
    ensures
        r as int == smoothstep_s(edge0 as int, edge1 as int, x as int),
{
    let t: i64 = clamp(fx_div(fx_sub(x, edge0), fx_sub(edge1, edge0)), 0, FX_ONE);
    fx_mul(fx_mul(t, t), fx_sub(3 * FX_ONE, fx_mul(2 * FX_ONE, t)))
}

/// One half turn, in fixed-point radians.
pub const FX_PI: i64 = 3_141_593;

pub open spec fn degrees_to_radians_s(degrees: int) -> int {
    fx_div_s(fx_mul_s(degrees, FX_PI as int), 180 * FX_ONE as int)
}

pub fn degrees_to_radians(degrees: i64) -> (r: i64)
    ensures
        r as int == degrees_to_radians_s(degrees as int),
{
    fx_div(fx_mul(degrees, FX_PI), 180 * FX_ONE)
}

pub open spec fn radians_to_degrees_s(radians: int) -> int {
    fx_div_s(fx_mul_s(radians, 180 * FX_ONE as int), FX_PI as int)
}

pub fn radians_to_degrees(radians: i64) -> (r: i64)
    ensures
        r as int == radians_to_degrees_s(radians as int),
{
    fx_div(fx_mul(radians, 180 * FX_ONE), FX_PI)
}


/// Magnitude clamping really clamps: when the cap is at least one
/// millionth of a unit and the vector's raw magnitude is representable,
/// the clamped vector's magnitude never exceeds the cap.  (A vector whose
/// components sit near the `i64` bounds saturates the magnitude itself and
/// is out of this law's reach.)
pub proof fn lemma_clamp_mag_law(v: Vector3D, max: int)
    requires
        1 <= max <= i64::MAX as int,
        sqrt_i(
            (v.x as int * v.x as int + v.y as int * v.y as int + v.z as int * v.z as int) as nat,
        ) <= i64::MAX as int,
    ensures
        v3_mag(v3_clamp_mag(v, max)) <= max,
{
    let x: int = v.x as int;
    let y: int = v.y as int;
    let z: int = v.z as int;
    let q: nat = (x * x + y * y + z * z) as nat;
    let m: int = sqrt_i(q) as int;
    assert(x * x >= 0 && y * y >= 0 && z * z >= 0) by (nonlinear_arith);
    assert(v3_mag(v) == m);
    if v3_mag(v) > max {
        crate::fixed::lemma_sqrt_i_char(q);
        let s: int = FX_ONE as int;
        let u = v3_normalize(v);
        let c = v3_scale(u, max);
        let ux: int = u.x as int;
        let uy: int = u.y as int;
        let uz: int = u.z as int;
        let cx: int = c.x as int;
        let cy: int = c.y as int;
        let cz: int = c.z as int;
        lemma_clamp_component(x, m, max);
        lemma_clamp_component(y, m, max);
        lemma_clamp_component(z, m, max);
        assert(cx * cx * (m * m) <= x * x * (max * max));
        assert(cy * cy * (m * m) <= y * y * (max * max));
        assert(cz * cz * (m * m) <= z * z * (max * max));
        let qc: int = cx * cx + cy * cy + cz * cz;
        assert(qc * (m * m) <= (x * x + y * y + z * z) * (max * max)) by (nonlinear_arith)
            requires
                cx * cx * (m * m) <= x * x * (max * max),
                cy * cy * (m * m) <= y * y * (max * max),
                cz * cz * (m * m) <= z * z * (max * max),
                qc == cx * cx + cy * cy + cz * cz;
        // The characterization bounds the raw sum of squares by the root.
        assert(q < (m + 1) * (m + 1));
        assert((x * x + y * y + z * z) * (max * max) < ((m + 1) * (m + 1)) * (max * max))
            by (nonlinear_arith)
            requires
                x * x + y * y + z * z < (m + 1) * (m + 1),
                max >= 1;
        // With the cap below the magnitude, swapping the two factors only grows
        // the product.
        assert(((m + 1) * (m + 1)) * (max * max) <= (m * m) * ((max + 1) * (max + 1)))
            by (nonlinear_arith)
            requires
                1 <= max < m;
        assert(qc < (max + 1) * (max + 1)) by (nonlinear_arith)
            requires
                qc * (m * m) < (m * m) * ((max + 1) * (max + 1)),
                m >= 1;
        assert(qc >= 0) by (nonlinear_arith)
            requires qc == cx * cx + cy * cy + cz * cz;
        crate::fixed::lemma_sqrt_i_char(qc as nat);
        let rc: int = sqrt_i(qc as nat) as int;
        if rc > max {
            assert((max + 1) * (max + 1) <= rc * rc) by (nonlinear_arith)
                requires
                    0 <= max && max + 1 <= rc;
        }
        assert(v3_mag(c) == clip(rc));
    }
}

/// One component of the clamped vector: `|c| * m <= |t| * max`, hence
/// `c^2 * m^2 <= t^2 * max^2`.
proof fn lemma_clamp_component(t: int, m: int, max: int)
    requires
        i64::MIN as int <= t <= i64::MAX as int,
        1 <= max,
        1 <= m <= i64::MAX as int,
    ensures
        ({
            let u = fx_div_s(t, m);
            let c = fx_mul_s(u, max);
            c * c * (m * m) <= t * t * (max * max)
        }),
{
    let s: int = FX_ONE as int;
    let u: int = fx_div_s(t, m);
    let c: int = fx_mul_s(u, max);
    let at: int = crate::fixed::abs_v(t);
    let au: int = crate::fixed::abs_v(u);
    let ac: int = crate::fixed::abs_v(c);
    let d1: int = crate::fixed::abs_v(crate::fixed::div_t(t * s, m));
    let d2: int = crate::fixed::abs_v(crate::fixed::div_t(u * max, s));
    let ats: int = crate::fixed::abs_v(t * s);
    let aum: int = crate::fixed::abs_v(u * max);
    crate::fixed::lemma_div_t_scaled_bound(t * s, m);
    crate::fixed::lemma_clip_abs(crate::fixed::div_t(t * s, m));
    assert(ats == at * s) by (nonlinear_arith)
        requires
            s > 0,
            at == t || at == -t,
            at >= 0,
            ats == t * s || ats == -(t * s),
            ats >= 0;
    assert(au * m <= at * s) by (nonlinear_arith)
        requires
            au <= d1,
            d1 * m <= ats,
            ats == at * s,
            m >= 1;
    crate::fixed::lemma_div_t_scaled_bound(u * max, s);
    crate::fixed::lemma_clip_abs(crate::fixed::div_t(u * max, s));
    assert(aum == au * max) by (nonlinear_arith)
        requires
            max > 0,
            au == u || au == -u,
            au >= 0,
            aum == u * max || aum == -(u * max),
            aum >= 0;
    assert(ac * s <= au * max) by (nonlinear_arith)
        requires
            ac <= d2,
            d2 * s <= aum,
            aum == au * max,
            s >= 1;
    // Chain the two bounds and cancel the shared scale factor.
    assert(ac * m <= at * max) by (nonlinear_arith)
        requires
            ac * s <= au * max,
            au * m <= at * s,
            s >= 1 && m >= 1 && max >= 1,
            ac >= 0 && au >= 0 && at >= 0;
    lemma_abs_square(t);
    lemma_abs_square(c);
    assert(c * c * (m * m) <= t * t * (max * max)) by (nonlinear_arith)
        requires
            ac * m <= at * max,
            ac >= 0 && at >= 0 && m >= 1 && max >= 1,
            ac * ac == c * c,
            at * at == t * t;
}

/// `|x|` squared is `x` squared.
proof fn lemma_abs_square(x: int)
    ensures
        crate::fixed::abs_v(x) * crate::fixed::abs_v(x) == x * x,
        crate::fixed::abs_v(x) >= 0,
{
    assert(crate::fixed::abs_v(x) * crate::fixed::abs_v(x) == x * x) by (nonlinear_arith)
        requires crate::fixed::abs_v(x) == x || crate::fixed::abs_v(x) == -x;
}

/// A deterministic linear-congruential pseudo-random generator.
pub struct Random {
    pub seed: u64,
}

/// One step of the linear-congruential recurrence, modulo 2^64.
pub open spec fn next_seed(s: u64) -> u64 {
    (((s as int) * 1103515245 + 12345) % 0x1_0000_0000_0000_0000) as u64
}

/// The low 32 bits of `v / 65536`, reinterpreted as a two's-complement `i32`.
pub open spec fn seed_to_i32(v: u64) -> int {
    let low = ((v as int) / 65536) % 0x1_0000_0000;
    if low >= 0x8000_0000 {
        low - 0x1_0000_0000
    } else {
        low
    }
}

impl Random {
    pub fn new(seed: u64) -> (r: Self)
        ensures
            r.seed == seed,
    {
        Random { seed }
    }

    /// Seeds the generator from the wall clock.
    pub fn from_time() -> (r: Self)
    {
        Random { seed: crate::idle::unix_time_nanos() }
    }

    pub fn next_i32(&mut self) -> (r: i32)
        ensures
            final(self).seed == next_seed(old(self).seed),
            r as int == seed_to_i32(final(self).seed),
    {
        let stepped: u64 = self.seed.wrapping_mul(1103515245).wrapping_add(12345);
        proof {
            lemma_lcg_step(old(self).seed);
        }
        self.seed = stepped;
        let low: u64 = (self.seed / 65536) % 0x1_0000_0000;
        if low >= 0x8000_0000 {
            ((low as i64) - 0x1_0000_0000) as i32
        } else {
            low as i32
        }
    }

    /// A value in `[min, max]`, from the next step of the generator.
    pub fn range_i32(&mut self, min: i32, max: i32) -> (r: i32)
        requires
            min <= max,
            max as int - min as int + 1 <= i32::MAX as int,
        ensures
            final(self).seed == next_seed(old(self).seed),
            r as int == min as int + crate::fixed::abs_v(seed_to_i32(final(self).seed)) % (
            max as int - min as int + 1),
    {
        let n: i32 = self.next_i32();
        let m: u64 = if n >= 0 {
            n as u64
        } else {
            (-(n as i64)) as u64
        };
        let span: u64 = ((max as i64) - (min as i64) + 1) as u64;
        let ofs: u64 = m % span;
        ((min as i64) + (ofs as i64)) as i32
    }
}

/// Composing the wrapping multiply and the wrapping add of the generator
/// equals one modular step.
proof fn lemma_lcg_step(s: u64)
    ensures
        vstd::wrapping::u64_specs::wrapping_add(
            vstd::wrapping::u64_specs::wrapping_mul(s, 1103515245),
            12345,
        ) == next_seed(s),
{
    let w: int = 0x1_0000_0000_0000_0000;
    let p: int = (s as int) * 1103515245;
    let m: int = p % w;
    vstd::arithmetic::div_mod::lemma_mod_bound(p, w);
    vstd::arithmetic::div_mod::lemma_add_mod_noop(p, 12345, w);
    vstd::arithmetic::div_mod::lemma_small_mod(12345nat, w as nat);
    if m + 12345 > u64::MAX {
        vstd::arithmetic::div_mod::lemma_mod_sub_multiples_vanish(m + 12345, w);
        vstd::arithmetic::div_mod::lemma_small_mod((m + 12345 - w) as nat, w as nat);
        assert((p + 12345) % w == (m + 12345) % w);
        assert((m + 12345) % w == (-w + (m + 12345)) % w);
        assert((-w + (m + 12345)) % w == m + 12345 - w);
    } else {
        vstd::arithmetic::div_mod::lemma_small_mod((m + 12345) as nat, w as nat);
        assert((p + 12345) % w == m + 12345);
    }
}

} // verus!
