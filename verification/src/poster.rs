//! Poster images: decoding the downloaded bytes with the `image` crate.

use vstd::prelude::*;

verus! {

/// `image::DynamicImage`, a decoded image; opaque here, carried through only.
#[verifier::external_type_specification]
#[verifier::external_body]
pub struct ExDynamicImage(image::DynamicImage);

/// `image::ImageError`, why decoding failed; opaque here, mapped to `PosterError`.
#[verifier::external_type_specification]
#[verifier::external_body]
pub struct ExImageError(image::ImageError);

/// Whether `image::load_from_memory` decodes these bytes (the format is
/// guessed from the bytes themselves, so this depends on them alone).
pub uninterp spec fn decodes(bytes: Seq<u8>) -> bool;

/// The width and height, in pixels, of the image that
/// `image::load_from_memory` decodes from these bytes.
pub uninterp spec fn decoded_size(bytes: Seq<u8>) -> (u32, u32);

/// `image::load_from_memory`, with the decoded image's `width()` and
/// `height()`. Trusted: it succeeds exactly on the bytes that `decodes`
/// names, and the size is the one `decoded_size` names; nothing is stated
/// about the pixels.
#[verifier::external_body]
fn load_from_memory(bytes: &[u8]) -> (r: Result<(image::DynamicImage, u32, u32), image::ImageError>)
    ensures
        r is Ok <==> decodes(bytes@),
        r matches Ok((_, w, h)) ==> (w, h) == decoded_size(bytes@),
{
    match image::load_from_memory(bytes) {
        Ok(img) => {
            let (w, h) = (img.width(), img.height());
            Ok((img, w, h))
        },
        Err(e) => Err(e),
    }
}

/// Why a poster could not be used.
#[derive(Debug, Clone, Copy, PartialEq, Eq, Structural)]
pub enum PosterError {
    /// The downloaded bytes are not an image in a known format.
    Undecodable,
}

/// A decoded poster and its size in pixels.
pub struct Poster {
    pub image: image::DynamicImage,
    pub width: u32,
    pub height: u32,
}

/// Decodes a downloaded poster.
pub fn decode_poster(bytes: &[u8]) -> (r: Result<Poster, PosterError>)
    ensures
        r is Ok <==> decodes(bytes@),
        r matches Ok(p) ==> (p.width, p.height) == decoded_size(bytes@),
        r matches Err(e) ==> e == PosterError::Undecodable,
{
    match load_from_memory(bytes) {
        Ok((image, width, height)) => Ok(Poster { image, width, height }),
        Err(_) => Err(PosterError::Undecodable),
    }
}

} // verus!
