use vstd::prelude::*;

verus! {

/// Scalar type for all geometry in this crate.
///
/// Coordinates are exact integers. All vector algebra below is exact, so the
/// intersection algorithm has no rounding and its accept/reject boundaries
/// (`u == 0`, `u == 1`, `u + v == 1`, `t == 0`) are exact contract boundaries.
pub type Scalar = i64;

/// Largest coordinate magnitude accepted by the intersection routine.
///
/// The Moeller-Trumbore computation multiplies up to four coordinates
/// together; with every input coordinate in `[-MAX_COORD, MAX_COORD]` every
/// intermediate value fits in an `i64` (see the bound proofs in
/// `intersects_triangle`).
pub const MAX_COORD: i64 = 16384;

/// A value representable by the scalar type.
pub open spec fn fits(x: int) -> bool {
    i64::MIN <= x && x <= i64::MAX
}

/// Mathematical 3-vector of unbounded integers; the model that every
/// contract in this crate speaks of.
pub ghost struct V3 {
    pub x: int,
    pub y: int,
    pub z: int,
}

#[derive(Copy, Clone, PartialEq, Debug)]
pub struct Vector {
    pub x: Scalar,
    pub y: Scalar,
    pub z: Scalar,
}

/// The mathematical value of an executable vector.
pub open spec fn v3(v: Vector) -> V3 {
    V3 { x: v.x as int, y: v.y as int, z: v.z as int }
}

pub open spec fn v3_add(a: V3, b: V3) -> V3 {
    V3 { x: a.x + b.x, y: a.y + b.y, z: a.z + b.z }
}

pub open spec fn v3_sub(a: V3, b: V3) -> V3 {
    V3 { x: a.x - b.x, y: a.y - b.y, z: a.z - b.z }
}

pub open spec fn v3_scale(a: V3, k: int) -> V3 {
    V3 { x: a.x * k, y: a.y * k, z: a.z * k }
}

pub open spec fn v3_neg(a: V3) -> V3 {
    V3 { x: -a.x, y: -a.y, z: -a.z }
}

/// Right-handed cross product.
pub open spec fn v3_cross(a: V3, b: V3) -> V3 {
    V3 {
        x: a.y * b.z - a.z * b.y,
        y: a.z * b.x - a.x * b.z,
        z: a.x * b.y - a.y * b.x,
    }
}

/// Dot product over the x and y components only.
///
/// Deliberate design choice: the z term is omitted, reproducing the
/// two-term dot product this renderer was built around. Intersection
/// results depend on this, and the test suite pins it down
/// (`dot((1,2,3),(1,2,3)) == 5`, not `14`).
pub open spec fn v3_dot(a: V3, b: V3) -> int {
    a.x * b.x + a.y * b.y
}

/// Every coordinate within `[-MAX_COORD, MAX_COORD]`.
pub open spec fn in_range(v: Vector) -> bool {
    &&& -MAX_COORD <= v.x && v.x <= MAX_COORD
    &&& -MAX_COORD <= v.y && v.y <= MAX_COORD
    &&& -MAX_COORD <= v.z && v.z <= MAX_COORD
}

impl Vector {
    /// Component-wise sum.
    pub fn add(self, other: Vector) -> (r: Vector)
        requires
            fits(self.x + other.x),
            fits(self.y + other.y),
            fits(self.z + other.z),
        ensures
            v3(r) == v3_add(v3(self), v3(other)),
    {
        Vector { x: self.x + other.x, y: self.y + other.y, z: self.z + other.z }
    }

    /// Component-wise difference.
    pub fn sub(self, other: Vector) -> (r: Vector)
        requires
            fits(self.x - other.x),
            fits(self.y - other.y),
            fits(self.z - other.z),
        ensures
            v3(r) == v3_sub(v3(self), v3(other)),
    {
        Vector { x: self.x - other.x, y: self.y - other.y, z: self.z - other.z }
    }

    /// Component-wise multiplication by a scalar.
    pub fn scale(self, factor: Scalar) -> (r: Vector)
        requires
            fits(self.x * factor),
            fits(self.y * factor),
            fits(self.z * factor),
        ensures
            v3(r) == v3_scale(v3(self), factor as int),
    {
        Vector { x: self.x * factor, y: self.y * factor, z: self.z * factor }
    }

    /// Component-wise sign flip.
    pub fn negate(self) -> (r: Vector)
        requires
            fits(-self.x),
            fits(-self.y),
            fits(-self.z),
        ensures
            v3(r) == v3_neg(v3(self)),
    {
        Vector { x: -self.x, y: -self.y, z: -self.z }
    }

    /// Right-handed cross product.
    pub fn cross_product(self, other: Vector) -> (r: Vector)
        requires
            fits(self.y * other.z),
            fits(self.z * other.y),
            fits(self.y * other.z - self.z * other.y),
            fits(self.z * other.x),
            fits(self.x * other.z),
            fits(self.z * other.x - self.x * other.z),
            fits(self.x * other.y),
            fits(self.y * other.x),
            fits(self.x * other.y - self.y * other.x),
        ensures
            v3(r) == v3_cross(v3(self), v3(other)),
    {
        let cx = self.y * other.z - self.z * other.y;
        let cy = self.z * other.x - self.x * other.z;
        let cz = self.x * other.y - self.y * other.x;
        Vector { x: cx, y: cy, z: cz }
    }

    /// Dot product over the x and y components only (see `v3_dot` for why
    /// the z term is deliberately omitted).
    pub fn dot_product(self, other: Vector) -> (r: Scalar)
        requires
            fits(self.x * other.x),
            fits(self.y * other.y),
            fits(self.x * other.x + self.y * other.y),
        ensures
            r == v3_dot(v3(self), v3(other)),
    {
        self.x * other.x + self.y * other.y
    }
}

#[derive(Copy, Clone, PartialEq, Debug)]
pub struct Triangle {
    pub points: [Vector; 3],
    pub color: Rgb,
}

#[derive(Copy, Clone, Debug)]
pub struct Ray {
    pub origin: Vector,
    pub direction: Vector,
}

/// A color, each channel stored in thousandths: `0` is `0.0`, `1000` is full
/// intensity `1.0`. Channels are nominally in `0..=1000` but this is not
/// enforced; `convert_bitmap_to_image` saturates when quantizing.
#[derive(Copy, Clone, PartialEq, Debug)]
pub struct Rgb(pub u16, pub u16, pub u16);

impl Rgb {
    /// White, full intensity on every channel.
    pub open spec fn white_spec() -> Rgb {
        Rgb(1000u16, 1000u16, 1000u16)
    }

    /// Black, zero intensity on every channel.
    pub open spec fn black_spec() -> Rgb {
        Rgb(0u16, 0u16, 0u16)
    }

    pub fn white() -> (r: Rgb)
        ensures
            r == Rgb::white_spec(),
    {
        Rgb(1000, 1000, 1000)
    }

    pub fn black() -> (r: Rgb)
        ensures
            r == Rgb::black_spec(),
    {
        Rgb(0, 0, 0)
    }
}

/// A ray-triangle hit point with exact rational coordinates:
/// the point is `num / den`, component-wise, with `den > 0`.
#[derive(Copy, Clone, PartialEq, Debug)]
pub struct HitPoint {
    pub num: Vector,
    pub den: Scalar,
}

pub open spec fn ray_in_range(r: Ray) -> bool {
    in_range(r.origin) && in_range(r.direction)
}

pub open spec fn tri_in_range(t: Triangle) -> bool {
    in_range(t.points[0]) && in_range(t.points[1]) && in_range(t.points[2])
}

/// First edge of the triangle, `v1 - v0`.
pub open spec fn mt_e1(t: Triangle) -> V3 {
    v3_sub(v3(t.points[1]), v3(t.points[0]))
}

/// Second edge of the triangle, `v2 - v0`.
pub open spec fn mt_e2(t: Triangle) -> V3 {
    v3_sub(v3(t.points[2]), v3(t.points[0]))
}

pub open spec fn mt_h(r: Ray, t: Triangle) -> V3 {
    v3_cross(v3(r.direction), mt_e2(t))
}

/// The determinant guard value `a = e1 . h`. With exact arithmetic the
/// parallel / degenerate guard is `a == 0` rather than a band of width
/// epsilon around zero.
pub open spec fn mt_a(r: Ray, t: Triangle) -> int {
    v3_dot(mt_e1(t), mt_h(r, t))
}

pub open spec fn mt_s(r: Ray, t: Triangle) -> V3 {
    v3_sub(v3(r.origin), v3(t.points[0]))
}

/// Numerator of the barycentric coordinate `u = un / a`.
pub open spec fn mt_un(r: Ray, t: Triangle) -> int {
    v3_dot(mt_s(r, t), mt_h(r, t))
}

pub open spec fn mt_q(r: Ray, t: Triangle) -> V3 {
    v3_cross(mt_s(r, t), mt_e1(t))
}

/// Numerator of the barycentric coordinate `v = vn / a`.
pub open spec fn mt_vn(r: Ray, t: Triangle) -> int {
    v3_dot(v3(r.direction), mt_q(r, t))
}

/// Numerator of the ray parameter `t = tn / a`.
pub open spec fn mt_tn(r: Ray, t: Triangle) -> int {
    v3_dot(mt_e2(t), mt_q(r, t))
}

/// `n / d >= 0`, for `d != 0`.
pub open spec fn frac_nonneg(n: int, d: int) -> bool {
    if d > 0 {
        n >= 0
    } else {
        n <= 0
    }
}

/// `n / d <= 1`, for `d != 0`.
pub open spec fn frac_le_one(n: int, d: int) -> bool {
    if d > 0 {
        n <= d
    } else {
        n >= d
    }
}

/// `n / d > 0`, for `d != 0`.
pub open spec fn frac_pos(n: int, d: int) -> bool {
    if d > 0 {
        n > 0
    } else {
        n < 0
    }
}

/// The ray hits the triangle: the determinant guard passes, the barycentric
/// coordinates satisfy `0 <= u <= 1`, `0 <= v`, `u + v <= 1`, and the
/// intersection lies strictly forward of the ray origin (`t > 0`).
pub open spec fn intersects(r: Ray, t: Triangle) -> bool {
    let a = mt_a(r, t);
    &&& a != 0
    &&& frac_nonneg(mt_un(r, t), a)
    &&& frac_le_one(mt_un(r, t), a)
    &&& frac_nonneg(mt_vn(r, t), a)
    &&& frac_le_one(mt_un(r, t) + mt_vn(r, t), a)
    &&& frac_pos(mt_tn(r, t), a)
}

/// Denominator of the reported hit point: `|a|`.
pub open spec fn hit_den(r: Ray, t: Triangle) -> int {
    if mt_a(r, t) >= 0 {
        mt_a(r, t)
    } else {
        -mt_a(r, t)
    }
}

/// Numerator of the reported hit point: `(origin + direction * (tn / a))`
/// scaled by `|a|`, so that the point is `hit_num / hit_den`.
pub open spec fn hit_num(r: Ray, t: Triangle) -> V3 {
    let p = v3_add(v3_scale(v3(r.origin), mt_a(r, t)), v3_scale(v3(r.direction), mt_tn(r, t)));
    if mt_a(r, t) >= 0 {
        p
    } else {
        v3_neg(p)
    }
}

proof fn lemma_mul_bound(x: int, bx: int, y: int, by: int) by (nonlinear_arith)
    requires
        -bx <= x && x <= bx,
        -by <= y && y <= by,
    ensures
        -(bx * by) <= x * y && x * y <= bx * by,
{
}

/// Bounds on every product and every component of `v3_cross(a, b)` when the
/// inputs are component-wise bounded by `ba` and `bb`.
proof fn lemma_cross_bounds(a: V3, b: V3, ba: int, bb: int)
    requires
        -ba <= a.x && a.x <= ba,
        -ba <= a.y && a.y <= ba,
        -ba <= a.z && a.z <= ba,
        -bb <= b.x && b.x <= bb,
        -bb <= b.y && b.y <= bb,
        -bb <= b.z && b.z <= bb,
    ensures
        -(ba * bb) <= a.y * b.z && a.y * b.z <= ba * bb,
        -(ba * bb) <= a.z * b.y && a.z * b.y <= ba * bb,
        -(ba * bb) <= a.z * b.x && a.z * b.x <= ba * bb,
        -(ba * bb) <= a.x * b.z && a.x * b.z <= ba * bb,
        -(ba * bb) <= a.x * b.y && a.x * b.y <= ba * bb,
        -(ba * bb) <= a.y * b.x && a.y * b.x <= ba * bb,
        -(2 * (ba * bb)) <= v3_cross(a, b).x && v3_cross(a, b).x <= 2 * (ba * bb),
        -(2 * (ba * bb)) <= v3_cross(a, b).y && v3_cross(a, b).y <= 2 * (ba * bb),
        -(2 * (ba * bb)) <= v3_cross(a, b).z && v3_cross(a, b).z <= 2 * (ba * bb),
{
    lemma_mul_bound(a.y, ba, b.z, bb);
    lemma_mul_bound(a.z, ba, b.y, bb);
    lemma_mul_bound(a.z, ba, b.x, bb);
    lemma_mul_bound(a.x, ba, b.z, bb);
    lemma_mul_bound(a.x, ba, b.y, bb);
    lemma_mul_bound(a.y, ba, b.x, bb);
}

/// Bounds on both products and on `v3_dot(a, b)` when the inputs are
/// component-wise bounded by `ba` and `bb`.
proof fn lemma_dot_bounds(a: V3, b: V3, ba: int, bb: int)
    requires
        -ba <= a.x && a.x <= ba,
        -ba <= a.y && a.y <= ba,
        -bb <= b.x && b.x <= bb,
        -bb <= b.y && b.y <= bb,
    ensures
        -(ba * bb) <= a.x * b.x && a.x * b.x <= ba * bb,
        -(ba * bb) <= a.y * b.y && a.y * b.y <= ba * bb,
        -(2 * (ba * bb)) <= v3_dot(a, b) && v3_dot(a, b) <= 2 * (ba * bb),
{
    lemma_mul_bound(a.x, ba, b.x, bb);
    lemma_mul_bound(a.y, ba, b.y, bb);
}

/// A ray whose origin is the triangle's first or second vertex is never
/// reported as a hit, whatever its direction: the hit parameter numerator
/// `tn` vanishes there, and the forward test rejects `t == 0` exactly.
pub proof fn lemma_ray_from_vertex_misses(r: Ray, t: Triangle)
    requires
        r.origin == t.points[0] || r.origin == t.points[1],
    ensures
        !intersects(r, t),
{
    if r.origin == t.points[0] {
        assert(mt_s(r, t) == V3 { x: 0, y: 0, z: 0 });
        assert(mt_q(r, t) == V3 { x: 0, y: 0, z: 0 });
        assert(mt_tn(r, t) == 0);
    } else {
        let e = mt_e1(t);
        assert(mt_s(r, t) == e);
        assert(e.y * e.z == e.z * e.y) by (nonlinear_arith);
        assert(e.z * e.x == e.x * e.z) by (nonlinear_arith);
        assert(e.x * e.y == e.y * e.x) by (nonlinear_arith);
        assert(mt_q(r, t) == V3 { x: 0, y: 0, z: 0 });
        assert(mt_tn(r, t) == 0);
    }
}

/// A triangle degenerate through a repeated vertex is never hit: its
/// determinant value `a` is exactly zero, so the parallel/degenerate guard
/// rejects it for every ray.
pub proof fn lemma_repeated_vertex_misses(r: Ray, t: Triangle)
    requires
        t.points[1] == t.points[0] || t.points[2] == t.points[0],
    ensures
        mt_a(r, t) == 0,
        !intersects(r, t),
{
    if t.points[1] == t.points[0] {
        assert(mt_e1(t) == V3 { x: 0, y: 0, z: 0 });
    } else {
        assert(mt_e2(t) == V3 { x: 0, y: 0, z: 0 });
        assert(mt_h(r, t) == V3 { x: 0, y: 0, z: 0 });
    }
}

impl Ray {
    /// Moeller-Trumbore ray-triangle intersection over exact integer
    /// coordinates.
    ///
    /// The division-based barycentric test (`u = (s . h) / a`, and so on) is
    /// re-expressed with sign-adjusted integer comparisons, so the
    /// accept/reject boundaries `u == 0`, `u == 1`, `u + v == 1` and `t == 0`
    /// are decided exactly. Because the arithmetic is exact, the two guards
    /// that protect a floating-point implementation shrink to their ideal
    /// forms: the near-zero determinant band becomes `a == 0`, and the
    /// far-range cap on `t` disappears.
    ///
    /// Returns the hit point as an exact rational, or `None` when the ray
    /// misses.
    pub fn intersects_triangle(&self, in_triangle: &Triangle) -> (r: Option<HitPoint>)
        requires
            ray_in_range(*self),
            tri_in_range(*in_triangle),
        ensures
            (r is Some) <==> intersects(*self, *in_triangle),
            r matches Some(hp) ==> {
                &&& hp.den > 0
                &&& hp.den == hit_den(*self, *in_triangle)
                &&& v3(hp.num) == hit_num(*self, *in_triangle)
            },
    {
        let ghost gr = *self;
        let ghost gt = *in_triangle;

        let vertex0: Vector = in_triangle.points[0];
        let vertex1: Vector = in_triangle.points[1];
        let vertex2: Vector = in_triangle.points[2];

        let edge1 = vertex1.sub(vertex0);
        let edge2 = vertex2.sub(vertex0);
        proof {
            assert(v3(edge1) == mt_e1(gt));
            assert(v3(edge2) == mt_e2(gt));
            lemma_cross_bounds(v3(self.direction), v3(edge2), 16384, 32768);
        }
        let h = self.direction.cross_product(edge2);
        proof {
            assert(v3(h) == mt_h(gr, gt));
            lemma_dot_bounds(v3(edge1), v3(h), 32768, 1073741824);
        }
        let a = edge1.dot_product(h);
        assert(a == mt_a(gr, gt));

        if a == 0 {
            // Ray parallel to the triangle plane, or degenerate triangle.
            return None;
        }

        let s = self.origin.sub(vertex0);
        proof {
            assert(v3(s) == mt_s(gr, gt));
            lemma_dot_bounds(v3(s), v3(h), 32768, 1073741824);
        }
        let un = s.dot_product(h);
        assert(un == mt_un(gr, gt));

        // u = un / a; reject unless 0 <= u <= 1.
        if a > 0 {
            if un < 0 || un > a {
                return None;
            }
        } else {
            if un > 0 || un < a {
                return None;
            }
        }

        proof {
            lemma_cross_bounds(v3(s), v3(edge1), 32768, 32768);
        }
        let q = s.cross_product(edge1);
        proof {
            assert(v3(q) == mt_q(gr, gt));
            lemma_dot_bounds(v3(self.direction), v3(q), 16384, 2147483648);
        }
        let vn = self.direction.dot_product(q);
        assert(vn == mt_vn(gr, gt));

        // v = vn / a; reject unless 0 <= v and u + v <= 1.
        if a > 0 {
            if vn < 0 || un + vn > a {
                return None;
            }
        } else {
            if vn > 0 || un + vn < a {
                return None;
            }
        }

        proof {
            lemma_dot_bounds(v3(edge2), v3(q), 32768, 2147483648);
        }
        let tn = edge2.dot_product(q);
        assert(tn == mt_tn(gr, gt));

        // t = tn / a; reject unless the intersection lies strictly forward
        // of the ray origin.
        if a > 0 {
            if tn <= 0 {
                return None;
            }
        } else {
            if tn >= 0 {
                return None;
            }
        }

        // Hit: the point is origin + direction * (tn / a), reported as an
        // exact rational with positive denominator |a|.
        proof {
            lemma_mul_bound(self.origin.x as int, 16384, a as int, 70368744177664);
            lemma_mul_bound(self.origin.y as int, 16384, a as int, 70368744177664);
            lemma_mul_bound(self.origin.z as int, 16384, a as int, 70368744177664);
            lemma_mul_bound(self.direction.x as int, 16384, tn as int, 140737488355328);
            lemma_mul_bound(self.direction.y as int, 16384, tn as int, 140737488355328);
            lemma_mul_bound(self.direction.z as int, 16384, tn as int, 140737488355328);
        }
        let p = self.origin.scale(a).add(self.direction.scale(tn));
        if a > 0 {
            Some(HitPoint { num: p, den: a })
        } else {
            Some(HitPoint { num: p.negate(), den: -a })
        }
    }
}

} // verus!
