use ray_tracer::math::{HitPoint, Ray, Rgb, Triangle, Vector};

fn v(x: i64, y: i64, z: i64) -> Vector {
    Vector { x, y, z }
}

fn reference_triangle() -> Triangle {
    Triangle {
        points: [v(0, -1, 0), v(0, 1, -1), v(0, 1, 1)],
        color: Rgb(300, 600, 200),
    }
}

// The dot product deliberately omits the z term (bug-compatible with the
// renderer this library reproduces): dot((1,2,3),(1,2,3)) is 5, not 14.
#[test]
fn dot_product_two_term() {
    let a = v(1, 2, 3);
    let b = v(1, 2, 3);
    assert_eq!(a.dot_product(b), 5);
}

#[test]
fn cross_product_right_handed() {
    let a = v(1, 2, 3);
    let b = v(4, 5, 6);
    assert_eq!(a.cross_product(b), v(-3, 6, -3));
}

#[test]
fn vector_componentwise_ops() {
    assert_eq!(v(1, 2, 3).add(v(10, 20, 30)), v(11, 22, 33));
    assert_eq!(v(1, 2, 3).sub(v(3, 2, 1)), v(-2, 0, 2));
    assert_eq!(v(1, -2, 3).scale(-4), v(-4, 8, -12));
    assert_eq!(v(1, -2, 0).negate(), v(-1, 2, 0));
}

#[test]
fn intersection_hit_point_is_exact() {
    let tri = reference_triangle();
    let origin = v(1, 1, 0);
    let ray = Ray { origin, direction: origin.negate() };
    let hit = ray.intersects_triangle(&tri);
    // The ray crosses the triangle plane at the coordinate origin, exactly:
    // the rational hit point is (0,0,0)/2.
    assert_eq!(hit, Some(HitPoint { num: v(0, 0, 0), den: 2 }));
}

#[test]
fn intersection_accepts_u_v_zero_boundary() {
    let tri = reference_triangle();
    let ray = Ray { origin: v(1, 0, 0), direction: v(-1, -1, 0) };
    // This ray meets the triangle exactly at vertex 0, with barycentric
    // coordinates u == 0, v == 0: the boundary is accepted.
    let hit = ray.intersects_triangle(&tri);
    assert_eq!(hit, Some(HitPoint { num: v(0, -2, 0), den: 2 }));
}

#[test]
fn intersection_rejects_past_u_plus_v_boundary() {
    let tri = reference_triangle();
    // Same direction as the hitting ray, but the origin is shifted so that
    // u == 1 (accepted boundary) while u + v == 2 > 1 (rejected).
    let ray = Ray { origin: v(1, 2, 0), direction: v(-1, -1, 0) };
    assert_eq!(ray.intersects_triangle(&tri), None);
}

#[test]
fn intersection_rejects_hit_behind_origin() {
    let tri = reference_triangle();
    // The line through the origin crosses the triangle, but only backwards
    // (t < 0), so the forward-ray test rejects it.
    let ray = Ray { origin: v(1, 1, 0), direction: v(1, 1, 0) };
    assert_eq!(ray.intersects_triangle(&tri), None);
}

#[test]
fn ray_from_vertex_misses() {
    let tri = reference_triangle();
    // A ray starting at a triangle vertex and pointing away from the
    // triangle never reports a hit: the hit parameter would be t == 0.
    let away = Ray { origin: v(0, -1, 0), direction: v(-1, 0, 0) };
    assert_eq!(away.intersects_triangle(&tri), None);
    let along = Ray { origin: v(0, 1, -1), direction: v(0, -1, 0) };
    assert_eq!(along.intersects_triangle(&tri), None);
}

#[test]
fn degenerate_triangle_misses() {
    // A repeated vertex makes the determinant value vanish, so the guard
    // returns None for rays from any side.
    let tri = Triangle {
        points: [v(0, -1, 0), v(0, -1, 0), v(0, 1, 1)],
        color: Rgb(300, 600, 200),
    };
    let ray = Ray { origin: v(1, 1, 0), direction: v(-1, -1, 0) };
    assert_eq!(ray.intersects_triangle(&tri), None);
    let ray_back = Ray { origin: v(-1, 0, 0), direction: v(1, 0, 0) };
    assert_eq!(ray_back.intersects_triangle(&tri), None);
}
