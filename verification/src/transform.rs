//! From world space to the pixels of the level's raster.
//!
//! World space is a plane of whole world units whose y axis points up. The
//! level's raster lies in it with its centre at a translation; one step
//! along a row of pixels, and one step up a column, is a vector of world
//! units each. A level that is only scaled has the vectors `(sx, 0)` and
//! `(0, sy)`; a turned level has turned vectors.

use vstd::prelude::*;
use crate::raster::PixelPos;

verus! {

/// A point or a vector of world space, in world units.
#[derive(Clone, Copy, Debug, PartialEq, Eq, Structural)]
pub struct WorldVec {
    pub x: i32,
    pub y: i32,
}

/// Where the level's raster lies in world space: the world point of its
/// centre, and the world vectors of one pixel to the right and one pixel up.
#[derive(Clone, Copy, Debug, PartialEq, Eq, Structural)]
pub struct LevelTransform {
    pub translation: WorldVec,
    pub x_axis: WorldVec,
    pub y_axis: WorldVec,
}

/// Why a world point has no pixel.
#[derive(Clone, Copy, Debug, PartialEq, Eq, Structural)]
pub enum TransformError {
    /// The two axes of the level are parallel or one of them is zero, so the
    /// level covers no area and the way back from world space is undefined.
    Degenerate,
}

/// The area of world space that one pixel of the level covers, negative for
/// a mirrored level. It is 0 exactly when the placement cannot be inverted.
pub open spec fn determinant(level: LevelTransform) -> int {
    level.x_axis.x * level.y_axis.y - level.y_axis.x * level.x_axis.y
}

/// The fraction `num / den` as a pixel coordinate: cut off toward zero, with
/// everything below 0 at 0 and everything above `u32::MAX` at `u32::MAX`.
pub open spec fn truncated(num: int, den: int) -> int
    recommends
        den != 0,
{
    let n = if den < 0 {
        -num
    } else {
        num
    };
    let d = if den < 0 {
        -den
    } else {
        den
    };
    if n < 0 {
        0
    } else if n / d > u32::MAX {
        u32::MAX as int
    } else {
        n / d
    }
}

/// The determinant times the distance of `world` from the centre of the
/// level, counted in pixels to the right.
pub open spec fn local_x_scaled(world: WorldVec, level: LevelTransform) -> int {
    let qx = world.x - level.translation.x;
    let qy = world.y - level.translation.y;
    level.y_axis.y * qx - level.y_axis.x * qy
}

/// The determinant times the distance of `world` from the centre of the
/// level, counted in pixels upward.
pub open spec fn local_y_scaled(world: WorldVec, level: LevelTransform) -> int {
    let qx = world.x - level.translation.x;
    let qy = world.y - level.translation.y;
    level.x_axis.x * qy - level.x_axis.y * qx
}

/// Twice the determinant times the column, counted from the left edge of a
/// raster `width` wide, under which `world` lies.
pub open spec fn column_numerator(world: WorldVec, level: LevelTransform, width: int) -> int {
    2 * local_x_scaled(world, level) + width * determinant(level)
}

/// Twice the determinant times the row, counted down from the top edge of a
/// raster `height` high, under which `world` lies.
pub open spec fn row_numerator(world: WorldVec, level: LevelTransform, height: int) -> int {
    height * determinant(level) - 2 * local_y_scaled(world, level)
}

/// The pixel of a raster of `width` by `height` pixels under the world point
/// `world`: the placement is inverted, half the raster's size is added so
/// that the centre of the raster lies at the translation, and the y axis is
/// flipped because row 0 is the top. A point to the left of the raster or
/// above it gets coordinate 0.
pub open spec fn local_pixel(world: WorldVec, level: LevelTransform, width: int, height: int) -> Result<
    PixelPos,
    TransformError,
> {
    if determinant(level) == 0 {
        Err(TransformError::Degenerate)
    } else {
        Ok(
            PixelPos {
                x: truncated(column_numerator(world, level, width), 2 * determinant(level)) as u32,
                y: truncated(row_numerator(world, level, height), 2 * determinant(level)) as u32,
            },
        )
    }
}

/// The product of two bounded numbers is bounded by the product of the bounds.
proof fn lemma_product_bound(x: int, y: int, bx: int, by: int)
    requires
        -bx <= x <= bx,
        -by <= y <= by,
    ensures
        -(bx * by) <= x * y <= bx * by,
{
    assert(-(bx * by) <= x * y <= bx * by) by (nonlinear_arith)
        requires
            -bx <= x <= bx,
            -by <= y <= by,
    ;
}

/// `x * y` for factors of at most 65 and 34 bits.
fn product(x: i128, y: i128) -> (p: i128)
    requires
        -0x1_0000_0000_0000_0000 <= x <= 0x1_0000_0000_0000_0000,
        -0x2_0000_0000 <= y <= 0x2_0000_0000,
    ensures
        p == x * y,
{
    proof {
        lemma_product_bound(x as int, y as int, 0x1_0000_0000_0000_0000, 0x2_0000_0000);
    }
    x * y
}

/// `num / den` cut to a pixel coordinate.
fn truncate(num: i128, den: i128) -> (cut: u32)
    requires
        den != 0,
        -0x1_0000_0000_0000_0000_0000_0000 <= num <= 0x1_0000_0000_0000_0000_0000_0000,
        -0x1_0000_0000_0000_0000_0000_0000 <= den <= 0x1_0000_0000_0000_0000_0000_0000,
    ensures
        cut == truncated(num as int, den as int),
{
    let n: i128 = if den < 0 {
        -num
    } else {
        num
    };
    let d: i128 = if den < 0 {
        -den
    } else {
        den
    };
    if n < 0 {
        return 0;
    }
    let quotient: u128 = n as u128 / d as u128;
    if quotient > u32::MAX as u128 {
        u32::MAX
    } else {
        quotient as u32
    }
}

impl LevelTransform {
    /// The placement of a level that is moved to `translation` and scaled by
    /// `scale_x` and `scale_y` world units a pixel, but not turned.
    pub fn from_scale(translation: WorldVec, scale_x: i32, scale_y: i32) -> (level: LevelTransform)
        ensures
            level.translation == translation,
            level.x_axis == (WorldVec { x: scale_x, y: 0 }),
            level.y_axis == (WorldVec { x: 0, y: scale_y }),
            determinant(level) == scale_x * scale_y,
    {
        assert(scale_x * scale_y - 0 * 0 == scale_x * scale_y);
        LevelTransform {
            translation,
            x_axis: WorldVec { x: scale_x, y: 0 },
            y_axis: WorldVec { x: 0, y: scale_y },
        }
    }

    /// Whether the placement can be inverted, so that every world point has
    /// a pixel. A level is checked once, when it is set up.
    pub fn is_invertible(&self) -> (yes: bool)
        ensures
            yes == (determinant(*self) != 0),
    {
        self.determinant() != 0
    }

    /// The area of world space that one pixel covers; 0 for a placement
    /// that cannot be inverted.
    pub fn determinant(&self) -> (det: i128)
        ensures
            det == determinant(*self),
            -0x8000_0000_0000_0000 <= det <= 0x8000_0000_0000_0000,
    {
        proof {
            lemma_product_bound(
                self.x_axis.x as int,
                self.y_axis.y as int,
                0x8000_0000,
                0x8000_0000,
            );
            lemma_product_bound(
                self.y_axis.x as int,
                self.x_axis.y as int,
                0x8000_0000,
                0x8000_0000,
            );
        }
        product(self.x_axis.x as i128, self.y_axis.y as i128) - product(
            self.y_axis.x as i128,
            self.x_axis.y as i128,
        )
    }
}

/// The pixel of a raster of `width` by `height` pixels under the world point
/// `world_pos`, or `Degenerate` for a level that covers no area.
pub fn world_to_local_pixel(
    world_pos: &WorldVec,
    level: &LevelTransform,
    width: u32,
    height: u32,
) -> (found: Result<PixelPos, TransformError>)
    ensures
        found == local_pixel(*world_pos, *level, width as int, height as int),
{
    let det: i128 = level.determinant();
    if det == 0 {
        return Err(TransformError::Degenerate);
    }
    let qx: i128 = world_pos.x as i128 - level.translation.x as i128;
    let qy: i128 = world_pos.y as i128 - level.translation.y as i128;
    proof {
        lemma_product_bound(level.y_axis.y as int, qx as int, 0x8000_0000, 0x1_0000_0000);
        lemma_product_bound(level.y_axis.x as int, qy as int, 0x8000_0000, 0x1_0000_0000);
        lemma_product_bound(level.x_axis.x as int, qy as int, 0x8000_0000, 0x1_0000_0000);
        lemma_product_bound(level.x_axis.y as int, qx as int, 0x8000_0000, 0x1_0000_0000);
        lemma_product_bound(det as int, width as int, 0x8000_0000_0000_0000, 0x1_0000_0000);
        lemma_product_bound(det as int, height as int, 0x8000_0000_0000_0000, 0x1_0000_0000);
        assert(det * width == width * det) by (nonlinear_arith);
        assert(det * height == height * det) by (nonlinear_arith);
    }
    let along: i128 = product(level.y_axis.y as i128, qx) - product(level.y_axis.x as i128, qy);
    let up: i128 = product(level.x_axis.x as i128, qy) - product(level.x_axis.y as i128, qx);
    let column: i128 = 2 * along + product(det, width as i128);
    let row: i128 = product(det, height as i128) - 2 * up;
    Ok(PixelPos { x: truncate(column, 2 * det), y: truncate(row, 2 * det) })
}

/// The local coordinates undo the placement: going from the centre of the
/// level as many pixels to the right and upward as they say leads to the
/// world point. Both sides are multiplied by the determinant, so that the
/// statement needs no fractions.
pub proof fn lemma_local_coordinates_invert(world: WorldVec, level: LevelTransform)
    ensures
        level.x_axis.x * local_x_scaled(world, level) + level.y_axis.x * local_y_scaled(
            world,
            level,
        ) == determinant(level) * (world.x - level.translation.x),
        level.x_axis.y * local_x_scaled(world, level) + level.y_axis.y * local_y_scaled(
            world,
            level,
        ) == determinant(level) * (world.y - level.translation.y),
{
    let a = level.x_axis.x as int;
    let c = level.x_axis.y as int;
    let b = level.y_axis.x as int;
    let d = level.y_axis.y as int;
    let qx = world.x - level.translation.x;
    let qy = world.y - level.translation.y;
    assert(a * (d * qx - b * qy) + b * (a * qy - c * qx) == (a * d - b * c) * qx)
        by (nonlinear_arith);
    assert(c * (d * qx - b * qy) + d * (a * qy - c * qx) == (a * d - b * c) * qy)
        by (nonlinear_arith);
}

/// A coordinate that is cut off lies at or below the fraction, and less than
/// one below it, unless it was held at an end of the range.
pub proof fn lemma_truncated_brackets(num: int, den: int)
    requires
        den > 0,
        num >= 0,
        truncated(num, den) < u32::MAX,
    ensures
        truncated(num, den) * den <= num < (truncated(num, den) + 1) * den,
{
    let q = num / den;
    vstd::arithmetic::div_mod::lemma_fundamental_div_mod(num, den);
    vstd::arithmetic::div_mod::lemma_mod_pos_bound(num, den);
    assert(q * den == den * q) by (nonlinear_arith);
    assert((q + 1) * den == den * q + den) by (nonlinear_arith);
}

/// The world point at the centre of a level lies in the middle column and
/// the middle row of its raster, however the level is scaled or turned.
pub proof fn lemma_centre_maps_to_middle(level: LevelTransform, width: int, height: int)
    requires
        determinant(level) != 0,
        0 <= width <= u32::MAX,
        0 <= height <= u32::MAX,
    ensures
        local_pixel(level.translation, level, width, height) == Ok::<PixelPos, TransformError>(
            PixelPos { x: (width / 2) as u32, y: (height / 2) as u32 },
        ),
{
    let det = determinant(level);
    let a = level.x_axis.x as int;
    let c = level.x_axis.y as int;
    let b = level.y_axis.x as int;
    let d = level.y_axis.y as int;
    assert(d * 0 - b * 0 == 0) by (nonlinear_arith);
    assert(a * 0 - c * 0 == 0) by (nonlinear_arith);
    assert(local_x_scaled(level.translation, level) == 0);
    assert(local_y_scaled(level.translation, level) == 0);
    lemma_half(width, det);
    lemma_half(height, det);
}

/// `size * det / (2 * det)` is half of `size`, rounded down, for either
/// sign of `det`.
proof fn lemma_half(size: int, det: int)
    requires
        det != 0,
        0 <= size <= u32::MAX,
    ensures
        truncated(size * det, 2 * det) == size / 2,
{
    let m = if det < 0 {
        -det
    } else {
        det
    };
    let n = size * m;
    assert(size * det == if det < 0 {
        -n
    } else {
        n
    }) by (nonlinear_arith)
        requires
            n == size * m,
            m == if det < 0 {
                -det
            } else {
                det
            },
    ;
    assert(n >= 0) by (nonlinear_arith)
        requires
            n == size * m,
            size >= 0,
            m > 0,
    ;
    let h = size / 2;
    assert(n / (2 * m) == h) by {
        assert(n == (2 * m) * h + (size % 2) * m) by (nonlinear_arith)
            requires
                n == size * m,
                size == 2 * h + size % 2,
        ;
        assert(0 <= (size % 2) * m < 2 * m) by (nonlinear_arith)
            requires
                0 <= size % 2 < 2,
                m > 0,
        ;
        vstd::arithmetic::div_mod::lemma_fundamental_div_mod_converse(
            n,
            2 * m,
            h,
            (size % 2) * m,
        );
    }
}

} // verus!
