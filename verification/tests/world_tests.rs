use ray_tracer::World;
use ray_tracer::math::{Ray, Rgb, Triangle, Vector};

fn v(x: i64, y: i64, z: i64) -> Vector {
    Vector { x, y, z }
}

#[test]
fn basic_intersection() {
    let world = World {
        triangles: vec![
            Triangle {
                points: [v(0, -1, 0), v(0, 1, -1), v(0, 1, 1)],
                color: Rgb(300, 600, 200),
            },
        ],
    };

    let origin = v(1, 1, 0);
    let ray = Ray { origin, direction: origin.negate() };

    let tri = world.get_intersecting_triangle(ray);
    assert_eq!(tri, Some(world.triangles[0]));
}

#[test]
fn negative_intersection() {
    let world = World {
        triangles: vec![
            Triangle {
                points: [v(1, 1, 1), v(0, 1, -1), v(0, 0, 1)],
                color: Rgb(300, 600, 200),
            },
        ],
    };

    let origin = v(1, 1, 0);
    let ray = Ray { origin, direction: origin.negate() };

    let tri = world.get_intersecting_triangle(ray);
    assert_eq!(tri, None);
}

#[test]
fn empty_world_always_misses() {
    let world = World { triangles: vec![] };
    let ray = Ray { origin: v(1, 1, 0), direction: v(-1, -1, 0) };
    assert_eq!(world.get_intersecting_triangle(ray), None);
    let other = Ray { origin: v(5, 0, 3), direction: v(0, 1, 0) };
    assert_eq!(world.get_intersecting_triangle(other), None);
}

#[test]
fn first_match_wins_over_later_hits() {
    // Triangles 0 and 2 are both hit by the ray, triangle 1 is not; the
    // query answers with triangle 0, the first in scene order.
    let hit_geometry = [v(0, -1, 0), v(0, 1, -1), v(0, 1, 1)];
    let miss_geometry = [v(1, 1, 1), v(0, 1, -1), v(0, 0, 1)];
    let world = World {
        triangles: vec![
            Triangle { points: hit_geometry, color: Rgb(1000, 0, 0) },
            Triangle { points: miss_geometry, color: Rgb(0, 1000, 0) },
            Triangle { points: hit_geometry, color: Rgb(0, 0, 1000) },
        ],
    };

    let origin = v(1, 1, 0);
    let ray = Ray { origin, direction: origin.negate() };

    let tri = world.get_intersecting_triangle(ray);
    assert_eq!(tri, Some(world.triangles[0]));
    assert_ne!(tri, Some(world.triangles[2]));
}
