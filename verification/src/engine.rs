//! What the pipeline asks of the outputs that an inference engine returns.

use vstd::prelude::*;
use crate::error::ExtractionError;

verus! {

/// The shape `(1, C)` of the scores of one image over `C >= 1` classes.
pub open spec fn is_class_vector(shape: Seq<i64>) -> bool {
    &&& shape.len() == 2
    &&& shape[0] == 1
    &&& shape[1] >= 1
}

/// Whether a shape is that of the scores of one image.
pub fn has_class_vector_shape(shape: &[i64]) -> (yes: bool)
    ensures
        yes == is_class_vector(shape@),
{
    shape.len() == 2 && shape[0] == 1 && shape[1] >= 1
}

/// Among the shapes of the tensors that the engine returned, in the order in
/// which it returned them, the index of the first one of shape `(1, C)`.
///
/// Fails with [`ExtractionError::Missing`] exactly when there is no output,
/// and with [`ExtractionError::UnexpectedShape`] exactly when there are
/// outputs and none has that shape.
pub fn select_output(shapes: &[Vec<i64>]) -> (out: Result<usize, ExtractionError>)
    ensures
        match out {
            Ok(index) => index < shapes@.len() && is_class_vector(shapes@[index as int]@)
                && forall|j: int| 0 <= j < index ==> !is_class_vector(#[trigger] shapes@[j]@),
            Err(error) => (forall|j: int| 0 <= j < shapes@.len() ==> !is_class_vector(#[trigger] shapes@[j]@))
                && error == if shapes@.len() == 0 {
                ExtractionError::Missing
            } else {
                ExtractionError::UnexpectedShape
            },
        },
{
    let mut index: usize = 0;
    while index < shapes.len()
        invariant
            index <= shapes@.len(),
            forall|j: int| 0 <= j < index ==> !is_class_vector(#[trigger] shapes@[j]@),
        decreases shapes@.len() - index,
    {
        if has_class_vector_shape(&shapes[index]) {
            return Ok(index);
        }
        index += 1;
    }
    if shapes.len() == 0 {
        Err(ExtractionError::Missing)
    } else {
        Err(ExtractionError::UnexpectedShape)
    }
}

} // verus!
