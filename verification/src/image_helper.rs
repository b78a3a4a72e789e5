//! Reading and writing single pixels of a raster, and stamping a filled disc
//! onto it.

use vstd::prelude::*;
use crate::color::Rgba;
use crate::raster::{lemma_equal_pixels_equal_bytes, PixelPos, Raster};

verus! {

/// The square of the distance between the pixels `(x, y)` and `(cx, cy)`.
pub open spec fn distance_squared(x: int, y: int, cx: int, cy: int) -> int {
    (x - cx) * (x - cx) + (y - cy) * (y - cy)
}

/// Whether the pixel `(x, y)` is nearer to `(cx, cy)` than `radius`. A pixel
/// at exactly that distance is outside.
pub open spec fn in_disc(x: int, y: int, cx: int, cy: int, radius: int) -> bool {
    distance_squared(x, y, cx, cy) < radius * radius
}

/// What a read of column `x`, row `y` yields: the pixel there, and black
/// with no opacity outside the raster.
pub open spec fn pixel_or_transparent(image: Raster, x: int, y: int) -> Rgba {
    if image.contains(x, y) {
        image.pixel_at(x, y)
    } else {
        Rgba { r: 0, g: 0, b: 0, a: 0 }
    }
}

/// What `after` must be when it is `before` with a disc of `color` stamped
/// round `(cx, cy)`: the pixels inside the disc are `color`, all others are
/// as they were.
pub open spec fn is_stamp_of(
    after: Raster,
    before: Raster,
    cx: int,
    cy: int,
    radius: int,
    color: Rgba,
) -> bool {
    &&& after.same_size(before)
    &&& forall|x: int, y: int|
        before.contains(x, y) ==> #[trigger] after.pixel_at(x, y) == if in_disc(
            x,
            y,
            cx,
            cy,
            radius,
        ) {
            color
        } else {
            before.pixel_at(x, y)
        }
}

/// The colour of the pixel at `pixel_pos`; black with no opacity outside the
/// raster.
pub fn get_pixel(pixel_pos: &PixelPos, image: &Raster) -> (color: Rgba)
    requires
        image.wf(),
    ensures
        color == pixel_or_transparent(*image, pixel_pos.x as int, pixel_pos.y as int),
{
    match image.read(pixel_pos) {
        Some(pixel) => pixel,
        None => Rgba::transparent(),
    }
}

/// The four bytes of the pixel at `pixel_pos`, in the order red, green, blue,
/// alpha; four zeros outside the raster.
pub fn get_pixel_u8(pixel_pos: &PixelPos, image: &Raster) -> (bytes: [u8; 4])
    requires
        image.wf(),
    ensures
        bytes@ == pixel_or_transparent(*image, pixel_pos.x as int, pixel_pos.y as int).channels(),
{
    match image.read(pixel_pos) {
        Some(pixel) => pixel.to_bytes(),
        None => [0, 0, 0, 0],
    }
}

/// Overwrites the pixel at `pixel_pos` with `color`; outside the raster
/// nothing is written.
pub fn set_pixel(pixel_pos: &PixelPos, color: &Rgba, image: &mut Raster)
    requires
        old(image).wf(),
    ensures
        final(image).wf(),
        final(image).is_write_of(*old(image), pixel_pos.x as int, pixel_pos.y as int, *color),
{
    image.write(pixel_pos, color);
}

/// Whether `pos` is nearer to `center` than `radius`.
pub fn is_in_disc(pos: &PixelPos, center: &PixelPos, radius: u32) -> (inside: bool)
    ensures
        inside == in_disc(
            pos.x as int,
            pos.y as int,
            center.x as int,
            center.y as int,
            radius as int,
        ),
{
    let dx: u64 = if pos.x >= center.x {
        (pos.x - center.x) as u64
    } else {
        (center.x - pos.x) as u64
    };
    let dy: u64 = if pos.y >= center.y {
        (pos.y - center.y) as u64
    } else {
        (center.y - pos.y) as u64
    };
    let r: u64 = radius as u64;
    proof {
        lemma_square_fits(dx as int);
        lemma_square_fits(dy as int);
        lemma_square_fits(r as int);
        assert(dx * dx == (pos.x - center.x) * (pos.x - center.x)) by (nonlinear_arith)
            requires
                dx == pos.x - center.x || dx == center.x - pos.x,
        ;
        assert(dy * dy == (pos.y - center.y) * (pos.y - center.y)) by (nonlinear_arith)
            requires
                dy == pos.y - center.y || dy == center.y - pos.y,
        ;
    }
    let far: u128 = (dx * dx) as u128 + (dy * dy) as u128;
    far < (r * r) as u128
}

/// The square of a 32-bit number fits in 64 bits.
proof fn lemma_square_fits(d: int)
    requires
        0 <= d <= u32::MAX,
    ensures
        0 <= d * d <= u64::MAX,
{
    assert(0 <= d * d <= 0xFFFF_FFFF * 0xFFFF_FFFF) by (nonlinear_arith)
        requires
            0 <= d <= 0xFFFF_FFFF,
    ;
}

/// Overwrites with `color` every pixel that is nearer to `center_pixel_pos`
/// than `radius`, and no other. The centre need not lie inside the raster.
pub fn draw_filled_circle(
    center_pixel_pos: &PixelPos,
    radius: u32,
    color: &Rgba,
    image: &mut Raster,
)
    requires
        old(image).wf(),
    ensures
        final(image).wf(),
        is_stamp_of(
            *final(image),
            *old(image),
            center_pixel_pos.x as int,
            center_pixel_pos.y as int,
            radius as int,
            *color,
        ),
{
    let ghost before = *image;
    let ghost cx = center_pixel_pos.x as int;
    let ghost cy = center_pixel_pos.y as int;
    let width: u32 = image.width();
    let height: u32 = image.height();
    let mut y: u32 = 0;
    while y < height
        invariant
            image.wf(),
            before.wf(),
            image.same_size(before),
            width == before.spec_width(),
            height == before.spec_height(),
            cx == center_pixel_pos.x,
            cy == center_pixel_pos.y,
            y <= height,
            forall|u: int, v: int|
                before.contains(u, v) ==> #[trigger] image.pixel_at(u, v) == if v < y && in_disc(
                    u,
                    v,
                    cx,
                    cy,
                    radius as int,
                ) {
                    *color
                } else {
                    before.pixel_at(u, v)
                },
        decreases height - y,
    {
        let mut x: u32 = 0;
        while x < width
            invariant
                image.wf(),
                before.wf(),
                image.same_size(before),
                width == before.spec_width(),
                height == before.spec_height(),
                cx == center_pixel_pos.x,
                cy == center_pixel_pos.y,
                y < height,
                x <= width,
                forall|u: int, v: int|
                    before.contains(u, v) ==> #[trigger] image.pixel_at(u, v) == if (v < y || (v
                        == y && u < x)) && in_disc(u, v, cx, cy, radius as int) {
                        *color
                    } else {
                        before.pixel_at(u, v)
                    },
            decreases width - x,
        {
            let pos = PixelPos { x, y };
            if is_in_disc(&pos, center_pixel_pos, radius) {
                image.write(&pos, color);
            }
            x += 1;
        }
        y += 1;
    }
}

/// A pixel written inside the raster is the pixel read back there.
pub proof fn lemma_write_then_read(before: Raster, after: Raster, x: int, y: int, color: Rgba)
    requires
        before.wf(),
        after.is_write_of(before, x, y, color),
        before.contains(x, y),
    ensures
        pixel_or_transparent(after, x, y) == color,
{
}

/// A write leaves every read at another place as it was.
pub proof fn lemma_write_keeps_other_reads(
    before: Raster,
    after: Raster,
    x: int,
    y: int,
    color: Rgba,
    u: int,
    v: int,
)
    requires
        before.wf(),
        after.is_write_of(before, x, y, color),
        u != x || v != y,
    ensures
        pixel_or_transparent(after, u, v) == pixel_or_transparent(before, u, v),
{
    if before.contains(u, v) && !before.contains(x, y) {
        lemma_read_is_stable(before, after, u, v);
    }
}

/// A read depends on nothing but the size and the bytes of the raster: as
/// long as no byte is written, every read of a place yields the same.
pub proof fn lemma_read_is_stable(a: Raster, b: Raster, x: int, y: int)
    requires
        a.same_size(b),
        a.bytes() == b.bytes(),
    ensures
        pixel_or_transparent(a, x, y) == pixel_or_transparent(b, x, y),
{
}

/// A stamped disc leaves its rim alone: a pixel at exactly the distance
/// `radius` from the centre, or further, is as it was.
pub proof fn lemma_stamp_spares_rim(
    before: Raster,
    after: Raster,
    cx: int,
    cy: int,
    radius: int,
    color: Rgba,
    x: int,
    y: int,
)
    requires
        is_stamp_of(after, before, cx, cy, radius, color),
        before.contains(x, y),
        distance_squared(x, y, cx, cy) >= radius * radius,
    ensures
        after.pixel_at(x, y) == before.pixel_at(x, y),
{
}

/// A stamped disc that covers no pixel of the raster changes no byte of it.
pub proof fn lemma_stamp_off_the_raster(
    before: Raster,
    after: Raster,
    cx: int,
    cy: int,
    radius: int,
    color: Rgba,
)
    requires
        before.wf(),
        after.wf(),
        is_stamp_of(after, before, cx, cy, radius, color),
        forall|x: int, y: int| before.contains(x, y) ==> !#[trigger] in_disc(x, y, cx, cy, radius),
    ensures
        after.bytes() == before.bytes(),
{
    assert forall|x: int, y: int| after.contains(x, y) implies #[trigger] after.pixel_at(x, y)
        == before.pixel_at(x, y) by {
        assert(!in_disc(x, y, cx, cy, radius));
    }
    lemma_equal_pixels_equal_bytes(after, before);
}

} // verus!
