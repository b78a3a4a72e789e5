//! Erosion of the level: now and then a hole is worn into the raster round a
//! pixel drawn at random. Terrain inside the hole takes random colours;
//! pixels that are already black are left alone.

use vstd::prelude::*;
use rand::Rng;
use rand::rngs::ThreadRng;
use crate::color::{is_terrain, Rgba};
use crate::image_helper::{in_disc, is_in_disc};
use crate::raster::{lemma_equal_pixels_equal_bytes, PixelPos, Raster};

verus! {

/// The radius of the holes that `level_destroy` wears into a level.
pub const EROSION_RADIUS: u32 = 5;

/// The bound below which every channel of a recoloured pixel lies.
pub const CHANNEL_BOUND: u32 = 255;

/// The random number generator of rand that is local to a thread. Nothing is
/// known of what it holds.
#[verifier::external_type_specification]
#[verifier::external_body]
pub struct ExThreadRng(rand::rngs::ThreadRng);

/// `rand::thread_rng` hands out the generator of the calling thread, which
/// the system seeds on first use. Nothing is claimed of the generator it
/// returns.
pub assume_specification[ rand::thread_rng ]() -> (rng: ThreadRng);

/// `Rng::gen_range` of rand on the range from 0 up to, but not including,
/// `bound`. rand samples from within the range it is given and refuses an
/// empty one, so `bound` is at least 1 and the number drawn is below it.
/// Which number comes is left open.
#[verifier::external_body]
fn random_below(rng: &mut ThreadRng, bound: u32) -> (value: u32)
    requires
        bound > 0,
    ensures
        value < bound,
{
    rng.gen_range(0..bound)
}

/// Whether erosion round `(cx, cy)` recolours `pixel`, found at `(x, y)`:
/// it must still be terrain and lie nearer to the centre than `radius`.
pub open spec fn erodes(pixel: Rgba, x: int, y: int, cx: int, cy: int, radius: int) -> bool {
    is_terrain(pixel) && in_disc(x, y, cx, cy, radius)
}

/// What is known of an eroded pixel: it keeps its alpha, and none of its
/// colour channels reaches 255, so it is never pure white.
pub open spec fn is_recolor_of(after: Rgba, before: Rgba) -> bool {
    &&& after.a == before.a
    &&& after.r < CHANNEL_BOUND
    &&& after.g < CHANNEL_BOUND
    &&& after.b < CHANNEL_BOUND
}

/// What `after` must be when it is `before` after one pass of erosion round
/// `(cx, cy)`: terrain inside the hole is recoloured, every other pixel is as
/// it was.
pub open spec fn is_erosion_of(after: Raster, before: Raster, cx: int, cy: int, radius: int) -> bool {
    &&& after.same_size(before)
    &&& forall|x: int, y: int|
        before.contains(x, y) ==> if erodes(before.pixel_at(x, y), x, y, cx, cy, radius) {
            is_recolor_of(#[trigger] after.pixel_at(x, y), before.pixel_at(x, y))
        } else {
            after.pixel_at(x, y) == before.pixel_at(x, y)
        }
}

/// Whether every pixel of the raster is black, whatever its alpha.
pub open spec fn is_worn_out(image: Raster) -> bool {
    forall|x: int, y: int| image.contains(x, y) ==> !is_terrain(#[trigger] image.pixel_at(x, y))
}

/// Whether erosion round `hole` recolours `pixel`, found at `pos`.
pub fn should_erode(pixel: &Rgba, pos: &PixelPos, hole: &PixelPos, radius: u32) -> (yes: bool)
    ensures
        yes == erodes(
            *pixel,
            pos.x as int,
            pos.y as int,
            hole.x as int,
            hole.y as int,
            radius as int,
        ),
{
    pixel.is_terrain() && is_in_disc(pos, hole, radius)
}

/// `pixel` with its colour channels replaced by `r`, `g` and `b`; the alpha
/// stays.
pub fn recolored(pixel: &Rgba, r: u8, g: u8, b: u8) -> (out: Rgba)
    ensures
        out == (Rgba { r, g, b, a: pixel.a }),
{
    Rgba { r, g, b, a: pixel.a }
}

/// A colour channel drawn at random, below `CHANNEL_BOUND`.
fn random_channel(rng: &mut ThreadRng) -> (value: u8)
    ensures
        value < CHANNEL_BOUND,
{
    let drawn: u32 = random_below(rng, CHANNEL_BOUND);
    drawn as u8
}

/// One pass of erosion round `hole`, with random numbers from `rng`: every
/// pixel that is still terrain and nearer to `hole` than `radius` gets three
/// random colour channels. The hole need not lie inside the raster.
pub fn carve_hole(image: &mut Raster, hole: &PixelPos, radius: u32, rng: &mut ThreadRng)
    requires
        old(image).wf(),
    ensures
        final(image).wf(),
        is_erosion_of(
            *final(image),
            *old(image),
            hole.x as int,
            hole.y as int,
            radius as int,
        ),
{
    let ghost before = *image;
    let ghost cx = hole.x as int;
    let ghost cy = hole.y as int;
    let width: u32 = image.width();
    let height: u32 = image.height();
    let mut y: u32 = 0;
    while y < height
        invariant
            image.wf(),
            before.wf(),
            image.same_size(before),
            width == before.spec_width(),
            height == before.spec_height(),
            cx == hole.x,
            cy == hole.y,
            y <= height,
            forall|u: int, v: int|
                before.contains(u, v) ==> if v < y && erodes(
                    before.pixel_at(u, v),
                    u,
                    v,
                    cx,
                    cy,
                    radius as int,
                ) {
                    is_recolor_of(#[trigger] image.pixel_at(u, v), before.pixel_at(u, v))
                } else {
                    image.pixel_at(u, v) == before.pixel_at(u, v)
                },
        decreases height - y,
    {
        let mut x: u32 = 0;
        while x < width
            invariant
                image.wf(),
                before.wf(),
                image.same_size(before),
                width == before.spec_width(),
                height == before.spec_height(),
                cx == hole.x,
                cy == hole.y,
                y < height,
                x <= width,
                forall|u: int, v: int|
                    before.contains(u, v) ==> if (v < y || (v == y && u < x)) && erodes(
                        before.pixel_at(u, v),
                        u,
                        v,
                        cx,
                        cy,
                        radius as int,
                    ) {
                        is_recolor_of(#[trigger] image.pixel_at(u, v), before.pixel_at(u, v))
                    } else {
                        image.pixel_at(u, v) == before.pixel_at(u, v)
                    },
            decreases width - x,
        {
            let pos = PixelPos { x, y };
            match image.read(&pos) {
                Some(pixel) => {
                    if should_erode(&pixel, &pos, hole, radius) {
                        let r: u8 = random_channel(rng);
                        let g: u8 = random_channel(rng);
                        let b: u8 = random_channel(rng);
                        let worn = recolored(&pixel, r, g, b);
                        image.write(&pos, &worn);
                    }
                },
                None => {},
            }
            x += 1;
        }
        y += 1;
    }
}

/// One pass of erosion round `hole`, with the random numbers of the calling
/// thread.
pub fn erode_at(image: &mut Raster, hole: &PixelPos, radius: u32)
    requires
        old(image).wf(),
    ensures
        final(image).wf(),
        is_erosion_of(
            *final(image),
            *old(image),
            hole.x as int,
            hole.y as int,
            radius as int,
        ),
{
    let mut rng = rand::thread_rng();
    carve_hole(image, hole, radius, &mut rng);
}

/// One tick of erosion: draws a pixel of the raster at random and wears a
/// hole of radius `EROSION_RADIUS` round it. Returns the centre of the hole.
pub fn level_destroy(image: &mut Raster) -> (hole: PixelPos)
    requires
        old(image).wf(),
    ensures
        final(image).wf(),
        old(image).contains(hole.x as int, hole.y as int),
        is_erosion_of(
            *final(image),
            *old(image),
            hole.x as int,
            hole.y as int,
            EROSION_RADIUS as int,
        ),
{
    let mut rng = rand::thread_rng();
    let x: u32 = random_below(&mut rng, image.width());
    let y: u32 = random_below(&mut rng, image.height());
    let hole = PixelPos { x, y };
    carve_hole(image, &hole, EROSION_RADIUS, &mut rng);
    hole
}

/// Erosion never recolours a black pixel, wherever the hole is.
pub proof fn lemma_erosion_spares_black(
    before: Raster,
    after: Raster,
    cx: int,
    cy: int,
    radius: int,
    x: int,
    y: int,
)
    requires
        is_erosion_of(after, before, cx, cy, radius),
        before.contains(x, y),
        !is_terrain(before.pixel_at(x, y)),
    ensures
        after.pixel_at(x, y) == before.pixel_at(x, y),
{
}

/// A pass of erosion over a raster that is black all over changes no byte of
/// it, so the raster is black all over for the next pass too.
pub proof fn lemma_erosion_of_worn_out_raster(
    before: Raster,
    after: Raster,
    cx: int,
    cy: int,
    radius: int,
)
    requires
        before.wf(),
        after.wf(),
        is_erosion_of(after, before, cx, cy, radius),
        is_worn_out(before),
    ensures
        after.bytes() == before.bytes(),
        is_worn_out(after),
{
    assert forall|x: int, y: int| after.contains(x, y) implies #[trigger] after.pixel_at(x, y)
        == before.pixel_at(x, y) by {
        assert(!is_terrain(before.pixel_at(x, y)));
    }
    lemma_equal_pixels_equal_bytes(after, before);
}

} // verus!
