//! A minimal ray tracer: exact integer vector algebra, Moeller-Trumbore
//! ray-triangle intersection, a first-match scene query, and the frame-buffer
//! plumbing a renderer needs. Image encoding and file output are left to the
//! caller.

use vstd::prelude::*;

pub mod math;
pub mod render;

verus! {

use crate::math::{Ray, Rgb, Triangle, intersects, ray_in_range, tri_in_range};

/// An ordered scene of triangles. The order matters: a query returns the
/// first triangle in this order that the ray hits, not the closest one.
#[derive(Clone, PartialEq, Debug)]
pub struct World {
    pub triangles: Vec<Triangle>,
}

/// A frame buffer of pixel colors, row-major, indexed as `y * width + x`.
pub struct Canvas {
    pub bitmap: Vec<Rgb>,
}

/// The first triangle in sequence order that the ray hits, if any.
/// First match wins; the depth of the hit is deliberately ignored.
pub open spec fn first_hit(tris: Seq<Triangle>, r: Ray) -> Option<Triangle>
    decreases tris.len(),
{
    if tris.len() == 0 {
        None
    } else if intersects(r, tris[0]) {
        Some(tris[0])
    } else {
        first_hit(tris.drop_first(), r)
    }
}

proof fn lemma_first_hit_skip(tris: Seq<Triangle>, r: Ray, i: int)
    requires
        0 <= i <= tris.len(),
        forall|j: int| 0 <= j < i ==> !intersects(r, #[trigger] tris[j]),
    ensures
        first_hit(tris, r) == first_hit(tris.skip(i), r),
    decreases i,
{
    if i > 0 {
        assert(!intersects(r, tris[0]));
        assert forall|j: int| 0 <= j < i - 1 implies !intersects(
            r,
            #[trigger] tris.drop_first()[j],
        ) by {
            assert(tris.drop_first()[j] == tris[j + 1]);
        }
        lemma_first_hit_skip(tris.drop_first(), r, i - 1);
        assert(tris.drop_first().skip(i - 1) =~= tris.skip(i));
    } else {
        assert(tris.skip(0) =~= tris);
    }
}

/// First match wins: if the triangle at index `i` is hit and no earlier
/// triangle is, the query answer is exactly that triangle, whatever stands
/// behind it in the sequence.
pub proof fn lemma_first_match_wins(tris: Seq<Triangle>, r: Ray, i: int)
    requires
        0 <= i < tris.len(),
        intersects(r, tris[i]),
        forall|j: int| 0 <= j < i ==> !intersects(r, #[trigger] tris[j]),
    ensures
        first_hit(tris, r) == Some(tris[i]),
{
    lemma_first_hit_skip(tris, r, i);
    assert(tris.skip(i).len() > 0);
    assert(tris.skip(i)[0] == tris[i]);
}

/// A ray that hits no triangle of the sequence gets no answer.
pub proof fn lemma_no_hit_means_none(tris: Seq<Triangle>, r: Ray)
    requires
        forall|j: int| 0 <= j < tris.len() ==> !intersects(r, #[trigger] tris[j]),
    ensures
        first_hit(tris, r) is None,
{
    lemma_first_hit_skip(tris, r, tris.len() as int);
    assert(tris.skip(tris.len() as int).len() == 0);
}

/// The full meaning of a query answer: `None` only when no triangle of the
/// scene is hit, and `Some(t)` only when `t` stands at some index whose
/// triangle the ray hits while every earlier triangle is missed.
pub proof fn lemma_first_hit_characterizes(tris: Seq<Triangle>, r: Ray)
    ensures
        first_hit(tris, r) is None ==> forall|j: int|
            0 <= j < tris.len() ==> !intersects(r, #[trigger] tris[j]),
        first_hit(tris, r) matches Some(t) ==> exists|i: int|
            {
                &&& 0 <= i < tris.len()
                &&& #[trigger] tris[i] == t
                &&& intersects(r, tris[i])
                &&& forall|j: int| 0 <= j < i ==> !intersects(r, #[trigger] tris[j])
            },
    decreases tris.len(),
{
    if tris.len() == 0 {
    } else if intersects(r, tris[0]) {
        assert(tris[0] == tris[0]);
    } else {
        let rest = tris.drop_first();
        lemma_first_hit_characterizes(rest, r);
        if first_hit(tris, r) is None {
            assert forall|j: int| 0 <= j < tris.len() implies !intersects(
                r,
                #[trigger] tris[j],
            ) by {
                if j > 0 {
                    assert(rest[j - 1] == tris[j]);
                }
            }
        } else {
            let t = first_hit(tris, r)->Some_0;
            let i = choose|i: int|
                {
                    &&& 0 <= i < rest.len()
                    &&& #[trigger] rest[i] == t
                    &&& intersects(r, rest[i])
                    &&& forall|j: int| 0 <= j < i ==> !intersects(r, #[trigger] rest[j])
                };
            assert(tris[i + 1] == rest[i]);
            assert forall|j: int| 0 <= j < i + 1 implies !intersects(
                r,
                #[trigger] tris[j],
            ) by {
                if j > 0 {
                    assert(rest[j - 1] == tris[j]);
                }
            }
        }
    }
}

/// A query over an empty scene always returns `None`, whatever the ray.
pub proof fn lemma_empty_world_misses(tris: Seq<Triangle>, r: Ray)
    requires
        tris.len() == 0,
    ensures
        first_hit(tris, r) is None,
{
}

impl World {
    /// Every triangle's coordinates are small enough for the exact
    /// intersection arithmetic.
    pub open spec fn wf(&self) -> bool {
        forall|i: int|
            0 <= i < self.triangles@.len() ==> tri_in_range(#[trigger] self.triangles@[i])
    }

    /// The first triangle, in scene order, that the ray hits; `None` when
    /// the ray misses every triangle. Only existence of a hit is surfaced,
    /// not its depth, so with overlapping triangles the answer is
    /// order-dependent by design.
    pub fn get_intersecting_triangle(&self, ray: Ray) -> (r: Option<Triangle>)
        requires
            self.wf(),
            ray_in_range(ray),
        ensures
            r == first_hit(self.triangles@, ray),
    {
        let n = self.triangles.len();
        let mut i: usize = 0;
        while i < n
            invariant
                n == self.triangles@.len(),
                i <= n,
                self.wf(),
                ray_in_range(ray),
                forall|j: int| 0 <= j < i ==> !intersects(ray, #[trigger] self.triangles@[j]),
            decreases n - i,
        {
            let triangle = self.triangles[i];
            match ray.intersects_triangle(&triangle) {
                Some(_) => {
                    proof {
                        lemma_first_match_wins(self.triangles@, ray, i as int);
                    }
                    return Some(triangle);
                },
                None => {},
            }
            i = i + 1;
        }
        proof {
            lemma_no_hit_means_none(self.triangles@, ray);
        }
        None
    }
}

} // verus!
