//! The input tensor of the classifier and how it is built from a grid.

use vstd::prelude::*;
use crate::codec::{allocation_fits, is_resampling, resize_nearest};
use crate::error::ShapeError;
use crate::grid::{lemma_cell_in_raster, GridView, PixelGrid};

verus! {

/// The value of a sample that stands for `1.0`: a sample `s` of an
/// [`InputTensor`] stands for the number `s / 255`.
pub const FULL_SCALE: u8 = 255;

/// The side length that the digit model expects of its input.
pub const MODEL_INPUT_SIZE: u32 = 28;

/// What an [`InputTensor`] holds: the two spatial extents and the samples in
/// `(batch, channel, row, column)` order.
pub struct TensorView {
    pub height: usize,
    pub width: usize,
    pub samples: Seq<u8>,
}

impl TensorView {
    /// There is exactly one sample per element of the shape.
    pub open spec fn wf(self) -> bool {
        self.samples.len() == self.height * self.width
    }

    /// The extents along the four axes: one image, one channel, then rows and
    /// columns.
    pub open spec fn shape(self) -> (usize, usize, usize, usize) {
        (1, 1, self.height, self.width)
    }

    /// Whether the four indices name an element.
    pub open spec fn in_bounds(self, batch: int, channel: int, row: int, column: int) -> bool {
        &&& batch == 0
        &&& channel == 0
        &&& 0 <= row < self.height
        &&& 0 <= column < self.width
    }

    /// Where the element stands among the samples: batch-major, then channel,
    /// then row, then column.
    pub open spec fn offset(self, batch: int, channel: int, row: int, column: int) -> int {
        ((batch * 1 + channel) * self.height + row) * self.width + column
    }

    /// The sample at the four indices.
    pub open spec fn at(self, batch: int, channel: int, row: int, column: int) -> u8
        recommends
            self.in_bounds(batch, channel, row, column),
    {
        self.samples[self.offset(batch, channel, row, column)]
    }

    /// Every sample has the value `v`.
    pub open spec fn is_uniform(self, v: u8) -> bool {
        forall|i: int| 0 <= i < self.samples.len() ==> self.samples[i] == v
    }
}

/// A tensor of shape `(1, 1, height, width)` whose elements lie in `[0, 1]`,
/// each held as its numerator over [`FULL_SCALE`].
#[derive(Debug, PartialEq, Eq)]
pub struct InputTensor {
    height: usize,
    width: usize,
    samples: Vec<u8>,
}

impl View for InputTensor {
    type V = TensorView;

    closed spec fn view(&self) -> TensorView {
        TensorView { height: self.height, width: self.width, samples: self.samples@ }
    }
}

impl Clone for InputTensor {
    fn clone(&self) -> (out: Self)
        ensures
            out@ == self@,
    {
        proof {
            use_type_invariant(self);
        }
        let samples = self.samples.clone();
        assert(samples@ =~= self.samples@);
        InputTensor { height: self.height, width: self.width, samples }
    }
}

impl InputTensor {
    /// The tensor has exactly one sample per element of its shape.
    #[verifier::type_invariant]
    pub open spec fn wf(&self) -> bool {
        self@.wf()
    }

    /// Makes a tensor of shape `(1, 1, height, width)` from samples in row-major
    /// order. Fails exactly when their number is not `height * width`.
    pub fn from_samples(height: usize, width: usize, samples: Vec<u8>) -> (out: Result<InputTensor, ShapeError>)
        ensures
            match out {
                Ok(tensor) => samples@.len() == height * width && tensor.wf()
                    && tensor@ == (TensorView { height, width, samples: samples@ }),
                Err(error) => samples@.len() != height * width && error == ShapeError::Mismatch,
            },
    {
        let count: usize = samples.len();
        let agrees = match height.checked_mul(width) {
            Some(expected) => count == expected,
            None => false,
        };
        if agrees {
            Ok(InputTensor { height, width, samples })
        } else {
            Err(ShapeError::Mismatch)
        }
    }

    /// The extents along the four axes.
    pub fn shape(&self) -> (s: (usize, usize, usize, usize))
        ensures
            s == self@.shape(),
    {
        (1, 1, self.height, self.width)
    }

    /// Number of rows.
    pub fn height(&self) -> (h: usize)
        ensures
            h == self@.height,
    {
        self.height
    }

    /// Number of columns.
    pub fn width(&self) -> (w: usize)
        ensures
            w == self@.width,
    {
        self.width
    }

    /// The samples in `(batch, channel, row, column)` order.
    pub fn samples(&self) -> (s: &Vec<u8>)
        ensures
            s@ == self@.samples,
            s@.len() == self@.height * self@.width,
    {
        proof {
            use_type_invariant(self);
        }
        &self.samples
    }

    /// The sample at the four indices, or `None` where they name no element.
    pub fn get(&self, batch: usize, channel: usize, row: usize, column: usize) -> (s: Option<u8>)
        ensures
            s == if self@.in_bounds(batch as int, channel as int, row as int, column as int) {
                Some(self@.at(batch as int, channel as int, row as int, column as int))
            } else {
                None
            },
    {
        proof {
            use_type_invariant(self);
        }
        if batch == 0 && channel == 0 && row < self.height && column < self.width {
            proof {
                lemma_cell_in_raster(column as int, row as int, self.width as int, self.height as int);
                assert(self.height * self.width == self.width * self.height) by (nonlinear_arith);
                assert(0 <= row * self.width) by (nonlinear_arith)
                    requires
                        0 <= row,
                        0 <= self.width,
                ;
                assert((0 * 1 + 0) * self.height + row == row) by (nonlinear_arith);
            }
            let count: usize = self.samples.len();
            assert(row * self.width + column < count);
            let i: usize = row * self.width + column;
            Some(self.samples[i])
        } else {
            None
        }
    }
}

/// `tensor` is what [`build`] makes of `grid` for the side length `target`.
pub open spec fn is_build(grid: GridView, target: u32, tensor: TensorView) -> bool {
    &&& target > 0
    &&& allocation_fits(grid.width, target, target)
    &&& tensor.height == target
    &&& tensor.width == target
    &&& is_resampling(grid, target, target, tensor.samples)
}

/// Builds the `(1, 1, target_size, target_size)` input tensor of a grid: a
/// grid of another size is first resampled by nearest neighbour, and each
/// intensity `p` becomes the sample that stands for `p / 255`.
///
/// Fails with [`ShapeError::NonPositiveTarget`] exactly when `target_size`
/// is zero, and otherwise with [`ShapeError::TooLarge`] exactly when the
/// buffers needed would exceed what one allocation may hold.
pub fn build(grid: &PixelGrid, target_size: u32) -> (out: Result<InputTensor, ShapeError>)
    ensures
        match out {
            Ok(tensor) => tensor.wf() && is_build(grid@, target_size, tensor@),
            Err(error) => error == if target_size == 0 {
                ShapeError::NonPositiveTarget
            } else {
                ShapeError::TooLarge
            } && (target_size == 0 || !allocation_fits(grid@.width, target_size, target_size)),
        },
{
    if target_size == 0 {
        return Err(ShapeError::NonPositiveTarget);
    }
    match resize_nearest(grid, target_size, target_size) {
        Ok(resized) => {
            let side: usize = target_size as usize;
            let samples = resized.pixels().clone();
            assert(samples@ =~= resized@.pixels);
            Ok(InputTensor { height: side, width: side, samples })
        },
        Err(error) => Err(error),
    }
}


/// On every machine the model's input can be built from a grid of up to
/// 4 793 490 columns.
pub proof fn lemma_model_input_fits(width: u32)
    requires
        width <= 4_793_490,
    ensures
        allocation_fits(width, MODEL_INPUT_SIZE, MODEL_INPUT_SIZE),
{
    assert(16 * (width * 28) <= 0x7FFF_FFFF) by (nonlinear_arith)
        requires
            0 <= width <= 4_793_490,
    ;
}

/// A grid that has the requested size already goes into the tensor as it is:
/// the element at row `y` and column `x` is the pixel at column `x` of row
/// `y`.
pub proof fn lemma_exact_size_is_kept(grid: GridView, target: u32, tensor: TensorView)
    requires
        grid.wf(),
        grid.width == target,
        grid.height == target,
        is_build(grid, target, tensor),
    ensures
        tensor.wf(),
        tensor.shape() == (1usize, 1usize, target as usize, target as usize),
        tensor.samples == grid.pixels,
        forall|y: int, x: int|
            0 <= y < target && 0 <= x < target ==> #[trigger] tensor.at(0, 0, y, x) == grid.at(x, y),
{
    assert forall|y: int, x: int| 0 <= y < target && 0 <= x < target implies #[trigger] tensor.at(0, 0, y, x)
        == grid.at(x, y) by {
        assert(((0 * 1 + 0) * tensor.height + y) * tensor.width + x == y * grid.width + x) by (nonlinear_arith)
            requires
                tensor.width == grid.width,
        ;
    }
}

/// Of a 28 by 28 grid whose pixels all have the highest intensity, the
/// tensor built for the model has the shape `(1, 1, 28, 28)` and every
/// element of it is one.
pub proof fn lemma_full_intensity_gives_all_ones(grid: GridView, tensor: TensorView)
    requires
        grid.wf(),
        grid.width == 28,
        grid.height == 28,
        grid.is_uniform(255),
        is_build(grid, MODEL_INPUT_SIZE, tensor),
    ensures
        tensor.shape() == (1usize, 1usize, 28usize, 28usize),
        tensor.samples.len() == 784,
        tensor.is_uniform(FULL_SCALE),
{
    lemma_exact_size_is_kept(grid, MODEL_INPUT_SIZE, tensor);
}

/// Resampling keeps a uniform image uniform: where every pixel of a grid
/// with at least one pixel has the value `v`, so has every element of the
/// tensor built from it, whatever the size asked for. Of a grid without
/// pixels the tensor is all zero.
pub proof fn lemma_uniform_stays_uniform(grid: GridView, target: u32, tensor: TensorView, v: u8)
    requires
        grid.wf(),
        grid.is_uniform(v),
        (grid.width > 0 && grid.height > 0) || v == 0,
        is_build(grid, target, tensor),
    ensures
        tensor.wf(),
        tensor.samples.len() == target * target,
        tensor.is_uniform(v),
{
    assert forall|i: int| 0 <= i < tensor.samples.len() implies tensor.samples[i] == v by {
        if grid.width > 0 && grid.height > 0 {
            assert(grid.pixels.contains(tensor.samples[i]));
        }
    }
}

} // verus!
