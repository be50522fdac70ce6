use vstd::prelude::*;

verus! {

use crate::math::{Ray, Rgb, Triangle, intersects, ray_in_range};
use crate::{World, first_hit, lemma_first_match_wins, lemma_no_hit_means_none};

/// The color a pixel gets for a given ray: the color of the first triangle
/// the ray hits, or white when it misses the whole scene.
pub open spec fn pixel_color(tris: Seq<Triangle>, r: Ray) -> Rgb {
    match first_hit(tris, r) {
        Some(t) => t.color,
        None => Rgb::white_spec(),
    }
}

/// An all-white frame buffer of `width * height` pixels.
pub fn build_bitmap(width: u32, height: u32) -> (r: Vec<Rgb>)
    requires
        width * height <= u32::MAX,
    ensures
        r@.len() == width * height,
        forall|i: int| 0 <= i < r@.len() ==> r@[i] == Rgb::white_spec(),
{
    let n = (width * height) as usize;
    let mut r: Vec<Rgb> = Vec::new();
    while r.len() < n
        invariant
            r@.len() <= n,
            forall|i: int| 0 <= i < r@.len() ==> r@[i] == Rgb::white_spec(),
        decreases n - r@.len(),
    {
        r.push(Rgb::white());
    }
    r
}

/// Render one pixel per ray: query the scene with each ray in turn and
/// record the hit triangle's color, or white on a miss. The pixel-to-ray
/// mapping is the caller's camera policy; this function only consumes the
/// finished rays, row-major.
pub fn render(world: &World, rays: &Vec<Ray>) -> (r: Vec<Rgb>)
    requires
        world.wf(),
        forall|i: int| 0 <= i < rays@.len() ==> ray_in_range(#[trigger] rays@[i]),
    ensures
        r@.len() == rays@.len(),
        forall|i: int|
            0 <= i < rays@.len() ==> r@[i] == pixel_color(world.triangles@, #[trigger] rays@[i]),
{
    let mut out: Vec<Rgb> = Vec::new();
    let mut i: usize = 0;
    while i < rays.len()
        invariant
            i <= rays@.len(),
            out@.len() == i,
            world.wf(),
            forall|j: int| 0 <= j < rays@.len() ==> ray_in_range(#[trigger] rays@[j]),
            forall|j: int|
                0 <= j < i ==> out@[j] == pixel_color(world.triangles@, #[trigger] rays@[j]),
        decreases rays@.len() - i,
    {
        let ray = rays[i];
        match world.get_intersecting_triangle(ray) {
            Some(tri) => out.push(tri.color),
            None => out.push(Rgb::white()),
        }
        i = i + 1;
    }
    out
}

/// One channel quantized for image output: scaled from thousandths to
/// `0..=255`, truncating, and saturating above full intensity.
pub open spec fn channel_byte(c: u16) -> u8 {
    let scaled = c * 255 / 1000;
    if scaled > 255 {
        255u8
    } else {
        scaled as u8
    }
}

fn quantize(c: u16) -> (b: u8)
    ensures
        b == channel_byte(c),
{
    let scaled = (c as u32) * 255 / 1000;
    if scaled > 255 {
        255
    } else {
        scaled as u8
    }
}

/// Flatten a frame buffer to raw 8-bit RGB bytes, three per pixel, in order.
pub fn convert_bitmap_to_image(bitmap: &Vec<Rgb>) -> (r: Vec<u8>)
    ensures
        r@.len() == 3 * bitmap@.len(),
        forall|i: int|
            0 <= i < bitmap@.len() ==> {
                &&& r@[3 * i] == channel_byte(#[trigger] bitmap@[i].0)
                &&& r@[3 * i + 1] == channel_byte(bitmap@[i].1)
                &&& r@[3 * i + 2] == channel_byte(bitmap@[i].2)
            },
{
    let mut out: Vec<u8> = Vec::new();
    let mut i: usize = 0;
    while i < bitmap.len()
        invariant
            i <= bitmap@.len(),
            out@.len() == 3 * i,
            forall|j: int|
                0 <= j < i ==> {
                    &&& out@[3 * j] == channel_byte(#[trigger] bitmap@[j].0)
                    &&& out@[3 * j + 1] == channel_byte(bitmap@[j].1)
                    &&& out@[3 * j + 2] == channel_byte(bitmap@[j].2)
                },
        decreases bitmap@.len() - i,
    {
        let px = bitmap[i];
        out.push(quantize(px.0));
        out.push(quantize(px.1));
        out.push(quantize(px.2));
        i = i + 1;
    }
    out
}

/// A scene of one triangle that stands behind every pixel ray renders to a
/// uniform frame buffer of that triangle's color.
pub proof fn lemma_render_uniform_hit(tris: Seq<Triangle>, rays: Seq<Ray>)
    requires
        tris.len() == 1,
        forall|i: int| 0 <= i < rays.len() ==> intersects(#[trigger] rays[i], tris[0]),
    ensures
        forall|i: int|
            0 <= i < rays.len() ==> pixel_color(tris, #[trigger] rays[i]) == tris[0].color,
{
    assert forall|i: int|
        0 <= i < rays.len() implies pixel_color(tris, #[trigger] rays[i]) == tris[0].color by {
        lemma_first_match_wins(tris, rays[i], 0);
    }
}

/// A scene that lies entirely outside the region swept by the pixel rays
/// renders to a uniform white frame buffer.
pub proof fn lemma_render_uniform_miss(tris: Seq<Triangle>, rays: Seq<Ray>)
    requires
        forall|i: int, j: int|
            0 <= i < rays.len() && 0 <= j < tris.len() ==> !intersects(
                #[trigger] rays[i],
                #[trigger] tris[j],
            ),
    ensures
        forall|i: int|
            0 <= i < rays.len() ==> pixel_color(tris, #[trigger] rays[i]) == Rgb::white_spec(),
{
    assert forall|i: int|
        0 <= i < rays.len() implies pixel_color(tris, #[trigger] rays[i])
        == Rgb::white_spec() by {
        lemma_no_hit_means_none(tris, rays[i]);
    }
}

} // verus!
