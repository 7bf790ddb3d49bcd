//! Decoding of image files to gray levels, done by the `image` crate.

use vstd::prelude::*;

verus! {

/// The error of the `image` crate. Nothing is known of what it holds.
#[verifier::external_type_specification]
#[verifier::external_body]
pub struct ExImageError(image::ImageError);

/// What decoding gives for a file of this name and content: the gray levels
/// of its pixels, one byte each, row by row; or nothing, where the content is
/// no image of the format that the name's extension announces.
pub uninterp spec fn decoded_luma(name: Seq<char>, content: Seq<u8>) -> Option<Seq<u8>>;

/// Decodes the content of an image file to 8-bit gray levels, as
/// `image::open` followed by `DynamicImage::into_luma8` and
/// `ImageBuffer::into_raw` does for a file on disk: the format is taken from
/// the extension of `name` by `ImageFormat::from_path`, the content is decoded
/// in that format by `image::load_from_memory_with_format`.
///
/// Trusted: the outcome depends on the name and the content alone, which is
/// all that the contract claims.
#[verifier::external_body]
pub(crate) fn decode_luma(name: &str, content: &[u8]) -> (decoded: Result<
    Vec<u8>,
    image::ImageError,
>)
    ensures
        match decoded {
            Ok(pixels) => decoded_luma(name@, content@) == Some(pixels@),
            Err(_) => decoded_luma(name@, content@) is None,
        },
{
    let format = image::ImageFormat::from_path(name)?;
    let picture = image::load_from_memory_with_format(content, format)?;
    Ok(picture.into_luma8().into_raw())
}

} // verus!
