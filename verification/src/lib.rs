//! Preprocessing and postprocessing around a handwritten-digit classifier:
//! image bytes become a pixel grid and then a fixed-shape input tensor, the
//! outputs of the inference engine are searched for the class scores, and
//! class probabilities become a ranked list.

use vstd::prelude::*;

pub mod codec;
pub mod engine;
pub mod error;
pub mod grid;
pub mod rank;
pub mod tensor;

use crate::codec::decode;
use crate::error::{PreprocessError, ShapeError};
use crate::tensor::{build, InputTensor, MODEL_INPUT_SIZE};

verus! {

/// Decodes an encoded image and builds the `(1, 1, 28, 28)` input tensor of
/// the digit model from it.
///
/// Fails with the decoder's error where the bytes do not decode, and with
/// [`ShapeError::TooLarge`] where the image is too wide to be resampled
/// within one allocation.
pub fn preprocess_image(img_data: &[u8]) -> (out: Result<InputTensor, PreprocessError>)
    ensures
        match out {
            Ok(tensor) => tensor.wf() && tensor@.shape() == (1usize, 1usize, 28usize, 28usize)
                && tensor@.samples.len() == 784,
            Err(error) => error is Shape ==> error == PreprocessError::Shape(ShapeError::TooLarge),
        },
{
    match decode(img_data) {
        Ok(grid) => match build(&grid, MODEL_INPUT_SIZE) {
            Ok(tensor) => Ok(tensor),
            Err(error) => Err(PreprocessError::Shape(error)),
        },
        Err(error) => Err(PreprocessError::Decode(error)),
    }
}

} // verus!
