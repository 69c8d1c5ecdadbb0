//! A single-channel raster of 8-bit intensities.

use vstd::prelude::*;
use crate::error::DecodeError;

verus! {

/// What a [`PixelGrid`] holds: its dimensions and its samples, row by row.
pub struct GridView {
    pub width: u32,
    pub height: u32,
    pub pixels: Seq<u8>,
}

impl GridView {
    /// There is exactly one sample per position.
    pub open spec fn wf(self) -> bool {
        self.pixels.len() == self.width * self.height
    }

    /// The sample at column `x` of row `y`.
    pub open spec fn at(self, x: int, y: int) -> u8
        recommends
            0 <= x < self.width,
            0 <= y < self.height,
    {
        self.pixels[y * self.width + x]
    }

    /// Every sample has the value `v`.
    pub open spec fn is_uniform(self, v: u8) -> bool {
        forall|i: int| 0 <= i < self.pixels.len() ==> self.pixels[i] == v
    }
}

/// An immutable grid of `width * height` intensity samples, one byte each,
/// stored row-major.
#[derive(Debug, PartialEq, Eq)]
pub struct PixelGrid {
    width: u32,
    height: u32,
    pixels: Vec<u8>,
}

impl View for PixelGrid {
    type V = GridView;

    closed spec fn view(&self) -> GridView {
        GridView { width: self.width, height: self.height, pixels: self.pixels@ }
    }
}

/// The product of two 32-bit numbers fits in 64 bits.
pub proof fn lemma_area_fits(a: u32, b: u32)
    ensures
        0 <= a * b <= 0xFFFF_FFFE_0000_0001,
{
    assert(0 <= a * b <= 0xFFFF_FFFE_0000_0001) by (nonlinear_arith)
        requires
            0 <= a <= 0xFFFF_FFFF,
            0 <= b <= 0xFFFF_FFFF,
    ;
}

/// A position inside a `width * height` grid has a row-major offset below
/// `width * height`.
pub proof fn lemma_cell_in_raster(x: int, y: int, width: int, height: int)
    requires
        0 <= x < width,
        0 <= y < height,
    ensures
        0 <= y * width + x < width * height,
{
    assert(0 <= y * width + x < width * height) by (nonlinear_arith)
        requires
            0 <= x < width,
            0 <= y < height,
    ;
}

impl Clone for PixelGrid {
    fn clone(&self) -> (out: Self)
        ensures
            out@ == self@,
    {
        proof {
            use_type_invariant(self);
        }
        let pixels = self.pixels.clone();
        assert(pixels@ =~= self.pixels@);
        PixelGrid { width: self.width, height: self.height, pixels }
    }
}

impl PixelGrid {
    /// The grid has exactly one sample per position.
    #[verifier::type_invariant]
    pub open spec fn wf(&self) -> bool {
        self@.wf()
    }

    /// Makes a grid from a row-major raster that has one sample per position.
    pub(crate) fn assemble(width: u32, height: u32, pixels: Vec<u8>) -> (grid: PixelGrid)
        requires
            pixels@.len() == width * height,
        ensures
            grid.wf(),
            grid@ == (GridView { width, height, pixels: pixels@ }),
    {
        PixelGrid { width, height, pixels }
    }

    /// Makes a grid from a row-major raster, provided it has one sample per
    /// position.
    pub fn from_raster(width: u32, height: u32, pixels: Vec<u8>) -> (out: Result<PixelGrid, DecodeError>)
        ensures
            match out {
                Ok(g) => pixels@.len() == width * height && g.wf()
                    && g@ == (GridView { width, height, pixels: pixels@ }),
                Err(e) => pixels@.len() != width * height
                    && e == (DecodeError::Inconsistent { width, height, samples: pixels.len() }),
            },
    {
        proof {
            lemma_area_fits(width, height);
        }
        let expected: u64 = (width as u64) * (height as u64);
        if pixels.len() as u64 == expected {
            Ok(PixelGrid::assemble(width, height, pixels))
        } else {
            Err(DecodeError::Inconsistent { width, height, samples: pixels.len() })
        }
    }

    /// Makes a grid of what a decoder handed back: either the width, the
    /// height and the raster of the image, or its account of why there is
    /// none. A raster with one sample per position becomes the grid; any
    /// other is [`DecodeError::Inconsistent`]; the decoder's refusal is
    /// [`DecodeError::Unreadable`] with the same account.
    pub fn from_decoding(outcome: Result<(u32, u32, Vec<u8>), String>) -> (out: Result<PixelGrid, DecodeError>)
        ensures
            match outcome {
                Ok((width, height, pixels)) => if pixels@.len() == width * height {
                    (out matches Ok(g) && g.wf() && g@ == (GridView { width, height, pixels: pixels@ }))
                } else {
                    out == Err::<PixelGrid, DecodeError>(
                        DecodeError::Inconsistent { width, height, samples: pixels.len() },
                    )
                },
                Err(detail) => out == Err::<PixelGrid, DecodeError>(DecodeError::Unreadable { detail }),
            },
    {
        match outcome {
            Ok((width, height, pixels)) => PixelGrid::from_raster(width, height, pixels),
            Err(detail) => Err(DecodeError::Unreadable { detail }),
        }
    }

    /// Number of columns.
    pub fn width(&self) -> (w: u32)
        ensures
            w == self@.width,
    {
        self.width
    }

    /// Number of rows.
    pub fn height(&self) -> (h: u32)
        ensures
            h == self@.height,
    {
        self.height
    }

    /// The samples, row by row.
    pub fn pixels(&self) -> (p: &Vec<u8>)
        ensures
            p@ == self@.pixels,
            p@.len() == self@.width * self@.height,
    {
        proof {
            use_type_invariant(self);
        }
        &self.pixels
    }

    /// The sample at column `x` of row `y`, or `None` outside the grid.
    pub fn pixel(&self, x: u32, y: u32) -> (p: Option<u8>)
        ensures
            p == if x < self@.width && y < self@.height {
                Some(self@.at(x as int, y as int))
            } else {
                None
            },
    {
        proof {
            use_type_invariant(self);
        }
        if x < self.width && y < self.height {
            proof {
                lemma_cell_in_raster(x as int, y as int, self.width as int, self.height as int);
                assert(0 <= y * self.width) by (nonlinear_arith)
                    requires
                        0 <= y,
                        0 <= self.width,
                ;
            }
            let samples: usize = self.pixels.len();
            assert(y * self.width + x < samples);
            let i: usize = (y as usize) * (self.width as usize) + (x as usize);
            Some(self.pixels[i])
        } else {
            None
        }
    }
}

} // verus!
