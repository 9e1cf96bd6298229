//! Grayscale images.

use vstd::prelude::*;
use vstd::arithmetic::div_mod::{lemma_fundamental_div_mod, lemma_fundamental_div_mod_converse};

verus! {

/// The shade of a dark module.
pub const BLACK: u8 = 0;

/// The shade of a light module and of the margin.
pub const WHITE: u8 = 255;

/// A grayscale image: one byte per pixel, 0 black and 255 white.
///
/// The pixels are kept as rows, so that an image is held wherever each of
/// its sides can be counted, whether or not its area can. There are always
/// `height` rows of `width` pixels each.
#[derive(Debug)]
pub struct Raster {
    width: u32,
    height: u32,
    rows: Vec<Vec<u8>>,
}

/// Whether `rows` are `height` rows of `width` pixels each.
pub open spec fn well_formed_rows(width: int, height: int, rows: Seq<Vec<u8>>) -> bool {
    &&& rows.len() == height
    &&& forall|y: int| 0 <= y < height ==> (#[trigger] rows[y])@.len() == width
}

/// The pixels of `height` rows of `width` pixels, one row after the other.
pub open spec fn pixels_of_rows(width: int, height: int, rows: Seq<Vec<u8>>) -> Seq<u8> {
    Seq::new((width * height) as nat, |i: int| rows[i / width]@[i % width])
}

impl View for Raster {
    type V = Seq<u8>;

    /// The pixels, row by row.
    closed spec fn view(&self) -> Seq<u8> {
        pixels_of_rows(self.width as int, self.height as int, self.rows@)
    }
}

impl Raster {
    #[verifier::type_invariant]
    spec fn inv(&self) -> bool {
        well_formed_rows(self.width as int, self.height as int, self.rows@)
    }

    /// The number of pixels in each row.
    pub closed spec fn spec_width(&self) -> int {
        self.width as int
    }

    /// The number of rows.
    pub closed spec fn spec_height(&self) -> int {
        self.height as int
    }

    /// The pixel in column `x` of row `y`.
    pub open spec fn spec_pixel(&self, x: int, y: int) -> u8 {
        self@[y * self.spec_width() + x]
    }

    /// Builds an image from its dimensions and its pixels, row by row.
    /// Returns `None` unless there are exactly `width * height` pixels.
    pub fn new(width: u32, height: u32, pixels: Vec<u8>) -> (raster: Option<Raster>)
        ensures
            raster is Some <==> pixels@.len() == width * height,
            raster matches Some(r) ==> r.spec_width() == width && r.spec_height() == height && r@
                == pixels@,
    {
        assert(width * height <= u64::MAX) by (nonlinear_arith)
            requires
                0 <= width <= u32::MAX,
                0 <= height <= u32::MAX,
        ;
        let area: u64 = width as u64 * height as u64;
        if pixels.len() as u64 != area {
            return None;
        }
        let across: usize = width as usize;
        let mut rows: Vec<Vec<u8>> = Vec::new();
        let mut y: usize = 0;
        while y < height as usize
            invariant
                y <= height,
                across == width,
                pixels@.len() == width * height,
                rows@.len() == y,
                forall|r: int| 0 <= r < y ==> (#[trigger] rows@[r])@.len() == width,
                forall|r: int, c: int|
                    0 <= r < y && 0 <= c < width ==> (#[trigger] rows@[r]@[c]) == pixels@[r * width
                        + c],
            decreases height - y,
        {
            let mut row: Vec<u8> = Vec::new();
            let mut x: usize = 0;
            while x < across
                invariant
                    x <= across,
                    y < height,
                    across == width,
                    pixels@.len() == width * height,
                    row@.len() == x,
                    forall|c: int| 0 <= c < x ==> (#[trigger] row@[c]) == pixels@[y * width + c],
                decreases across - x,
            {
                proof {
                    lemma_pixel_index_in_range(width as int, height as int, x as int, y as int);
                    assert(pixels@.len() == pixels.len());
                }
                row.push(pixels[y * across + x]);
                x += 1;
            }
            rows.push(row);
            y += 1;
        }
        let raster = Raster { width, height, rows };
        proof {
            assert forall|i: int| 0 <= i < pixels@.len() implies raster@[i] == pixels@[i] by {
                lemma_index_is_a_pixel(width as int, height as int, i);
            }
            assert(raster@ =~= pixels@);
        }
        Some(raster)
    }

    /// Builds an image from `height` rows of `width` pixels each.
    pub(crate) fn from_rows(width: u32, height: u32, rows: Vec<Vec<u8>>) -> (raster: Raster)
        requires
            well_formed_rows(width as int, height as int, rows@),
        ensures
            raster.spec_width() == width,
            raster.spec_height() == height,
            raster@ == pixels_of_rows(width as int, height as int, rows@),
    {
        Raster { width, height, rows }
    }

    /// The number of pixels in each row.
    pub fn width(&self) -> (width: u32)
        ensures
            width == self.spec_width(),
    {
        self.width
    }

    /// The number of rows.
    pub fn height(&self) -> (height: u32)
        ensures
            height == self.spec_height(),
    {
        self.height
    }

    /// The pixels in one buffer, row by row. The buffer must be addressable:
    /// the image may have no more pixels than a `usize` counts.
    pub fn pixels(&self) -> (pixels: Vec<u8>)
        requires
            self.spec_width() * self.spec_height() <= usize::MAX,
        ensures
            pixels@ == self@,
    {
        proof {
            use_type_invariant(self);
        }
        let across: usize = self.width as usize;
        let down: usize = self.height as usize;
        let mut pixels: Vec<u8> = Vec::new();
        let mut y: usize = 0;
        assert(0 * across == 0) by (nonlinear_arith);
        while y < down
            invariant
                y <= down,
                across == self.width,
                down == self.height,
                well_formed_rows(self.width as int, self.height as int, self.rows@),
                pixels@.len() == y * across,
                forall|i: int| 0 <= i < pixels@.len() ==> (#[trigger] pixels@[i]) == self@[i],
            decreases down - y,
        {
            let row = &self.rows[y];
            let mut x: usize = 0;
            while x < across
                invariant
                    x <= across,
                    y < down,
                    across == self.width,
                    down == self.height,
                    well_formed_rows(self.width as int, self.height as int, self.rows@),
                    row == self.rows@[y as int],
                    pixels@.len() == y * across + x,
                    forall|i: int| 0 <= i < pixels@.len() ==> (#[trigger] pixels@[i]) == self@[i],
                decreases across - x,
            {
                proof {
                    lemma_pixel_index_in_range(across as int, down as int, x as int, y as int);
                    lemma_fundamental_div_mod_converse(
                        y * across + x,
                        across as int,
                        y as int,
                        x as int,
                    );
                }
                pixels.push(row[x]);
                x += 1;
            }
            assert((y + 1) * across == y * across + across) by (nonlinear_arith);
            y += 1;
        }
        assert(down * across == self.width * self.height) by (nonlinear_arith)
            requires
                across == self.width,
                down == self.height,
        ;
        assert(pixels@ =~= self@);
        pixels
    }

    /// The pixel in column `x` of row `y`, or white where the image has no
    /// such pixel.
    pub fn luma_at(&self, x: usize, y: usize) -> (luma: u8)
        ensures
            luma == if x < self.spec_width() && y < self.spec_height() {
                self.spec_pixel(x as int, y as int)
            } else {
                WHITE
            },
    {
        proof {
            use_type_invariant(self);
        }
        if x < self.width as usize && y < self.height as usize {
            proof {
                lemma_pixel_index_in_range(
                    self.width as int,
                    self.height as int,
                    x as int,
                    y as int,
                );
                lemma_fundamental_div_mod_converse(
                    y * self.width + x,
                    self.width as int,
                    y as int,
                    x as int,
                );
            }
            self.rows[y][x]
        } else {
            WHITE
        }
    }
}

/// Row `y`, column `x` of a `width` by `height` image lies inside its
/// `width * height` pixels.
pub proof fn lemma_pixel_index_in_range(width: int, height: int, x: int, y: int)
    requires
        0 <= x < width,
        0 <= y < height,
    ensures
        0 <= y * width + x < width * height,
        0 <= y * width <= (height - 1) * width,
{
    assert(y * width <= (height - 1) * width) by (nonlinear_arith)
        requires
            0 <= y <= height - 1,
            0 < width,
    ;
    assert(0 <= y * width) by (nonlinear_arith)
        requires
            0 <= y,
            0 < width,
    ;
    assert((height - 1) * width + width == width * height) by (nonlinear_arith);
}

/// Every index below `width * height` is that of the pixel in column
/// `i % width` of row `i / width`.
pub proof fn lemma_index_is_a_pixel(width: int, height: int, i: int)
    requires
        0 <= width,
        0 <= height,
        0 <= i < width * height,
    ensures
        0 <= i % width < width,
        0 <= i / width < height,
        (i / width) * width + i % width == i,
{
    assert(0 < width) by (nonlinear_arith)
        requires
            0 <= width,
            0 <= height,
            0 <= i < width * height,
    ;
    lemma_fundamental_div_mod(i, width);
    assert(0 <= i % width < width) by (nonlinear_arith)
        requires
            0 < width,
    ;
    assert(0 <= i / width < height) by (nonlinear_arith)
        requires
            0 < width,
            0 <= i < width * height,
            i == width * (i / width) + i % width,
            0 <= i % width < width,
    ;
    assert((i / width) * width == width * (i / width)) by (nonlinear_arith);
}

} // verus!
