//! Fixed-size grayscale image samples for a regression model: the dataset that
//! loads them from named image files, the batcher that stacks them into
//! tensors, and the convolutional model that predicts their labels.
//!
//! - [`filename`]: which files belong to the dataset, and the label in a name.
//! - [`decode`]: image files to gray levels, by the `image` crate.
//! - [`data`]: samples, the dataset and the batcher.
//! - [`tensor`] and [`layers`]: tensors and layers of the `burn` crate, with
//!   what is taken on trust of them.
//! - [`model`]: the model, its forward pass and its steps.

use vstd::prelude::*;

pub mod data;
pub mod decode;
pub mod filename;
pub mod layers;
pub mod model;
pub mod tensor;

verus! {

/// Width of every image, in pixels.
pub const IMG_WIDTH: usize = 90;

/// Height of every image, in pixels.
pub const IMG_HEIGHT: usize = 50;

/// Number of pixels of every image.
pub const IMG_PIXELS: usize = 4500;

/// The pixel count is the product of the two sides.
pub proof fn lemma_pixel_count()
    ensures
        IMG_PIXELS == IMG_WIDTH * IMG_HEIGHT,
{
}

} // verus!
