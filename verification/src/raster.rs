//! The raster: a grid of RGBA pixels stored row by row, four bytes a pixel.

use vstd::prelude::*;
use vstd::arithmetic::div_mod::{lemma_fundamental_div_mod, lemma_mod_pos_bound};
use crate::color::Rgba;

verus! {

/// The column and row of a pixel. Row 0 is the top of the picture.
#[derive(Clone, Copy, Debug, PartialEq, Eq, Structural)]
pub struct PixelPos {
    pub x: u32,
    pub y: u32,
}

/// A picture of `width` by `height` pixels. The pixel in column `x` of row `y`
/// occupies the four bytes that start at `4 * (y * width + x)`.
#[derive(Clone, Debug)]
pub struct Raster {
    width: u32,
    height: u32,
    data: Vec<u8>,
}

/// In a grid `width` wide, two different cells of the first `height` rows
/// have different offsets, and every offset is below `width * height`.
pub proof fn lemma_offsets(width: int, height: int, x: int, y: int, u: int, v: int)
    requires
        0 <= x < width,
        0 <= y < height,
        0 <= u < width,
        0 <= v < height,
    ensures
        0 <= y * width + x < width * height,
        (x != u || y != v) ==> y * width + x != v * width + u,
{
    assert(0 <= y * width && (y + 1) * width <= height * width) by (nonlinear_arith)
        requires
            0 <= y < height,
            0 < width,
    ;
    assert(y < v ==> (y + 1) * width <= v * width) by (nonlinear_arith)
        requires
            0 < width,
    ;
    assert(v < y ==> (v + 1) * width <= y * width) by (nonlinear_arith)
        requires
            0 < width,
    ;
    assert((y + 1) * width == y * width + width) by (nonlinear_arith);
    assert((v + 1) * width == v * width + width) by (nonlinear_arith);
    assert(height * width == width * height) by (nonlinear_arith);
}

/// Two rasters of one size whose pixels agree hold the same bytes.
pub proof fn lemma_equal_pixels_equal_bytes(a: Raster, b: Raster)
    requires
        a.wf(),
        b.wf(),
        a.same_size(b),
        forall|x: int, y: int| a.contains(x, y) ==> #[trigger] a.pixel_at(x, y) == b.pixel_at(x, y),
    ensures
        a.bytes() == b.bytes(),
{
    let w = a.spec_width();
    let h = a.spec_height();
    assert forall|i: int| 0 <= i < a.bytes().len() implies a.bytes()[i] == b.bytes()[i] by {
        let p = i / 4;
        let x = p % w;
        let y = p / w;
        lemma_fundamental_div_mod(p, w);
        lemma_mod_pos_bound(p, w);
        assert(0 <= y < h) by (nonlinear_arith)
            requires
                p == w * y + x,
                0 <= x < w,
                0 <= p < w * h,
        ;
        assert(y * w == w * y) by (nonlinear_arith);
        assert(a.contains(x, y));
        assert(a.pixel_at(x, y) == b.pixel_at(x, y));
        assert(4 * (y * w + x) + i % 4 == i);
    }
    assert(a.bytes() =~= b.bytes());
}

/// The byte that a pixel of colour `color` holds at index `i` of the bytes:
/// red, green, blue and alpha follow each other.
pub open spec fn channel(color: Rgba, i: int) -> u8 {
    if i % 4 == 0 {
        color.r
    } else if i % 4 == 1 {
        color.g
    } else if i % 4 == 2 {
        color.b
    } else {
        color.a
    }
}

impl Raster {
    /// The number of columns.
    pub closed spec fn spec_width(self) -> int {
        self.width as int
    }

    /// The number of rows.
    pub closed spec fn spec_height(self) -> int {
        self.height as int
    }

    /// The stored bytes, row by row.
    pub closed spec fn bytes(self) -> Seq<u8> {
        self.data@
    }

    /// A raster has at least one pixel, and four bytes for each.
    pub open spec fn wf(self) -> bool {
        &&& 0 < self.spec_width() <= u32::MAX
        &&& 0 < self.spec_height() <= u32::MAX
        &&& self.bytes().len() == 4 * (self.spec_width() * self.spec_height())
    }

    /// Whether column `x` of row `y` lies inside the raster.
    pub open spec fn contains(self, x: int, y: int) -> bool {
        0 <= x < self.spec_width() && 0 <= y < self.spec_height()
    }

    /// The pixel in column `x` of row `y`, for a position inside the raster.
    pub open spec fn pixel_at(self, x: int, y: int) -> Rgba {
        let at = 4 * (y * self.spec_width() + x);
        Rgba {
            r: self.bytes()[at],
            g: self.bytes()[at + 1],
            b: self.bytes()[at + 2],
            a: self.bytes()[at + 3],
        }
    }

    /// Whether both rasters have the same number of columns and of rows.
    pub open spec fn same_size(self, other: Raster) -> bool {
        self.spec_width() == other.spec_width() && self.spec_height() == other.spec_height()
    }

    /// Whether every pixel of the raster is `color`.
    pub open spec fn is_filled_with(self, color: Rgba) -> bool {
        forall|x: int, y: int| self.contains(x, y) ==> #[trigger] self.pixel_at(x, y) == color
    }

    /// What `self` must be when it is `before` after one write of `color` to
    /// column `x` of row `y`: inside the raster that pixel is `color` and
    /// every other pixel is as it was; outside, no byte differs.
    pub open spec fn is_write_of(self, before: Raster, x: int, y: int, color: Rgba) -> bool {
        &&& self.same_size(before)
        &&& self.bytes().len() == before.bytes().len()
        &&& before.contains(x, y) ==> {
            &&& self.pixel_at(x, y) == color
            &&& forall|u: int, v: int|
                before.contains(u, v) && (u != x || v != y) ==> #[trigger] self.pixel_at(u, v)
                    == before.pixel_at(u, v)
        }
        &&& !before.contains(x, y) ==> self.bytes() == before.bytes()
    }

    /// A raster of `width` by `height` pixels, each of them `fill`. There is
    /// none with no pixel, nor with more bytes than `usize` counts.
    pub fn new(width: u32, height: u32, fill: &Rgba) -> (made: Option<Raster>)
        ensures
            made.is_some() == (width > 0 && height > 0 && 4 * (width * height) <= usize::MAX),
            made.is_some() ==> made.unwrap().wf(),
            made.is_some() ==> made.unwrap().spec_width() == width,
            made.is_some() ==> made.unwrap().spec_height() == height,
            made.is_some() ==> made.unwrap().is_filled_with(*fill),
    {
        if width == 0 || height == 0 {
            return None;
        }
        proof {
            assert(0 < width * height <= 0xFFFF_FFFF * 0xFFFF_FFFF) by (nonlinear_arith)
                requires
                    0 < width <= 0xFFFF_FFFF,
                    0 < height <= 0xFFFF_FFFF,
            ;
        }
        let pixels: u128 = width as u128 * height as u128;
        if pixels * 4 > usize::MAX as u128 {
            return None;
        }
        let len: usize = (pixels * 4) as usize;
        let mut data: Vec<u8> = Vec::new();
        while data.len() < len
            invariant
                len % 4 == 0,
                data.len() <= len,
                data.len() % 4 == 0,
                forall|i: int| 0 <= i < data.len() ==> #[trigger] data[i] == channel(*fill, i),
            decreases len - data.len(),
        {
            data.push(fill.r);
            data.push(fill.g);
            data.push(fill.b);
            data.push(fill.a);
        }
        let made = Raster { width, height, data };
        proof {
            assert forall|x: int, y: int| made.contains(x, y) implies #[trigger] made.pixel_at(
                x,
                y,
            ) == *fill by {
                lemma_offsets(width as int, height as int, x, y, x, y);
            }
        }
        Some(made)
    }

    /// The raster of `width` by `height` pixels whose bytes are `data`, row by
    /// row: there is one when neither side is 0 and `data` holds four bytes
    /// for each pixel.
    pub fn from_bytes(width: u32, height: u32, data: Vec<u8>) -> (made: Option<Raster>)
        ensures
            made.is_some() == (width > 0 && height > 0 && data.len() == 4 * (width * height)),
            made.is_some() ==> made.unwrap().wf(),
            made.is_some() ==> made.unwrap().spec_width() == width,
            made.is_some() ==> made.unwrap().spec_height() == height,
            made.is_some() ==> made.unwrap().bytes() == data@,
    {
        if width == 0 || height == 0 {
            return None;
        }
        proof {
            assert(0 < width * height <= 0xFFFF_FFFF * 0xFFFF_FFFF) by (nonlinear_arith)
                requires
                    0 < width <= 0xFFFF_FFFF,
                    0 < height <= 0xFFFF_FFFF,
            ;
        }
        let wanted: u128 = width as u128 * height as u128 * 4;
        if data.len() as u128 != wanted {
            return None;
        }
        Some(Raster { width, height, data })
    }

    /// The bytes of the raster, row by row.
    pub fn into_bytes(self) -> (data: Vec<u8>)
        ensures
            data@ == self.bytes(),
    {
        self.data
    }

    /// The number of columns.
    pub fn width(&self) -> (w: u32)
        ensures
            w == self.spec_width(),
    {
        self.width
    }

    /// The number of rows.
    pub fn height(&self) -> (h: u32)
        ensures
            h == self.spec_height(),
    {
        self.height
    }

    /// Whether `pos` lies inside the raster.
    pub fn in_bounds(&self, pos: &PixelPos) -> (inside: bool)
        ensures
            inside == self.contains(pos.x as int, pos.y as int),
    {
        pos.x < self.width && pos.y < self.height
    }

    /// The byte at which the pixel at `pos` starts.
    fn byte_offset(&self, pos: &PixelPos) -> (at: usize)
        requires
            self.wf(),
            self.contains(pos.x as int, pos.y as int),
        ensures
            at == 4 * (pos.y * self.spec_width() + pos.x),
            at + 4 <= self.bytes().len(),
    {
        proof {
            lemma_offsets(
                self.width as int,
                self.height as int,
                pos.x as int,
                pos.y as int,
                pos.x as int,
                pos.y as int,
            );
            assert(0 <= pos.y * self.width) by (nonlinear_arith);
            assert(self.bytes().len() == self.data.len());
        }
        (pos.y as usize * self.width as usize + pos.x as usize) * 4
    }

    /// The pixel at `pos`, or `None` outside the raster.
    pub fn read(&self, pos: &PixelPos) -> (found: Option<Rgba>)
        requires
            self.wf(),
        ensures
            self.contains(pos.x as int, pos.y as int) ==> found == Some(
                self.pixel_at(pos.x as int, pos.y as int),
            ),
            !self.contains(pos.x as int, pos.y as int) ==> found.is_none(),
    {
        if !self.in_bounds(pos) {
            return None;
        }
        let at: usize = self.byte_offset(pos);
        Some(
            Rgba {
                r: self.data[at],
                g: self.data[at + 1],
                b: self.data[at + 2],
                a: self.data[at + 3],
            },
        )
    }

    /// Overwrites the pixel at `pos` with `color`. Outside the raster nothing
    /// is written.
    pub fn write(&mut self, pos: &PixelPos, color: &Rgba)
        requires
            old(self).wf(),
        ensures
            final(self).wf(),
            final(self).is_write_of(*old(self), pos.x as int, pos.y as int, *color),
    {
        if !self.in_bounds(pos) {
            return;
        }
        let at: usize = self.byte_offset(pos);
        self.data.set(at, color.r);
        self.data.set(at + 1, color.g);
        self.data.set(at + 2, color.b);
        self.data.set(at + 3, color.a);
        proof {
            let w = self.width as int;
            let h = self.height as int;
            assert forall|u: int, v: int|
                old(self).contains(u, v) && (u != pos.x || v != pos.y) implies #[trigger] self.pixel_at(
                u,
                v,
            ) == old(self).pixel_at(u, v) by {
                lemma_offsets(w, h, pos.x as int, pos.y as int, u, v);
                lemma_offsets(w, h, u, v, u, v);
            }
        }
    }
}

} // verus!
