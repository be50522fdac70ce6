use ray_tracer::math::{Ray, Rgb, Triangle, Vector};
use ray_tracer::render::{build_bitmap, convert_bitmap_to_image, render};
use ray_tracer::{Canvas, World};

fn v(x: i64, y: i64, z: i64) -> Vector {
    Vector { x, y, z }
}

fn one_triangle_world() -> World {
    World {
        triangles: vec![
            Triangle {
                points: [v(0, -1, 0), v(0, 1, -1), v(0, 1, 1)],
                color: Rgb(300, 600, 200),
            },
        ],
    }
}

#[test]
fn color_constants() {
    assert_eq!(Rgb::white(), Rgb(1000, 1000, 1000));
    assert_eq!(Rgb::black(), Rgb(0, 0, 0));
}

#[test]
fn build_bitmap_is_all_white() {
    let bitmap = build_bitmap(2, 3);
    assert_eq!(bitmap.len(), 6);
    for px in &bitmap {
        assert_eq!(*px, Rgb::white());
    }
    let canvas = Canvas { bitmap };
    assert_eq!(canvas.bitmap.len(), 6);
}

#[test]
fn render_uniform_when_triangle_behind_every_ray() {
    let world = one_triangle_world();
    let hitting = Ray { origin: v(1, 1, 0), direction: v(-1, -1, 0) };
    let rays = vec![hitting; 4];
    let frame = render(&world, &rays);
    assert_eq!(frame, vec![Rgb(300, 600, 200); 4]);
}

#[test]
fn render_white_when_triangle_outside_swept_region() {
    let world = one_triangle_world();
    // The line through this ray crosses the triangle only backwards, so
    // every pixel ray misses and the frame stays white.
    let missing = Ray { origin: v(1, 1, 0), direction: v(1, 1, 0) };
    let rays = vec![missing; 4];
    let frame = render(&world, &rays);
    assert_eq!(frame, vec![Rgb::white(); 4]);
}

#[test]
fn render_mixes_hit_and_background_pixels() {
    let world = one_triangle_world();
    let hitting = Ray { origin: v(1, 1, 0), direction: v(-1, -1, 0) };
    let missing = Ray { origin: v(1, 1, 0), direction: v(1, 1, 0) };
    let frame = render(&world, &vec![hitting, missing, hitting]);
    assert_eq!(frame, vec![Rgb(300, 600, 200), Rgb::white(), Rgb(300, 600, 200)]);
}

#[test]
fn convert_bitmap_scales_channels_to_bytes() {
    let bitmap = vec![Rgb(300, 600, 200), Rgb(1000, 1000, 1000), Rgb(0, 0, 0)];
    let bytes = convert_bitmap_to_image(&bitmap);
    assert_eq!(bytes, vec![76, 153, 51, 255, 255, 255, 0, 0, 0]);
}

#[test]
fn convert_bitmap_saturates_out_of_range_channels() {
    // Channels above full intensity are not enforced away; quantization
    // saturates them at 255, as a float-to-byte cast would.
    let bytes = convert_bitmap_to_image(&vec![Rgb(2000, 0, 1500)]);
    assert_eq!(bytes, vec![255, 0, 255]);
}
