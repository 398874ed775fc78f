//! Decoding image containers into 8-bit RGBA pixels ready for upload.
use vstd::prelude::*;

verus! {

#[verifier::external_type_specification]
#[verifier::external_body]
pub struct ExImageError(image::ImageError);

/// What decoding `bytes` as the built-in image container its magic bytes name gives:
/// width, height and RGBA8 pixels, or nothing when the bytes are no supported container.
pub uninterp spec fn decoded_rgba8(bytes: Seq<u8>) -> Option<(u32, u32, Seq<u8>)>;

/// Relies on image::guess_format, which picks a built-in container format from the
/// magic bytes at the start of the buffer, and on image::load_from_memory_with_format,
/// which decodes the buffer as that built-in format; neither consults the decoding or
/// format-detection hooks, so the outcome depends on the bytes alone. Relies as well on
/// DynamicImage::into_rgba8, ImageBuffer::dimensions and ImageBuffer::into_raw, which
/// convert the result to RGBA8 and hand out its size and pixels.
#[verifier::external_body]
fn decode_rgba8(bytes: &[u8]) -> (r: Result<(u32, u32, Vec<u8>), image::ImageError>)
    ensures
        match r {
            Ok((w, h, px)) => decoded_rgba8(bytes@) == Some((w, h, px@)),
            Err(_) => decoded_rgba8(bytes@) is None,
        },
{
    let decoded = match image::guess_format(bytes) {
        Ok(format) => image::load_from_memory_with_format(bytes, format),
        Err(e) => Err(e),
    };
    match decoded {
        Ok(img) => {
            let rgba = img.into_rgba8();
            let (w, h) = rgba.dimensions();
            Ok((w, h, rgba.into_raw()))
        },
        Err(e) => Err(e),
    }
}

/// Why an image could not be turned into a texture.
#[derive(Debug)]
pub enum TextureError {
    /// The bytes are not a supported image container.
    Decode,
}

/// Decoded pixels, in the size the image has.
pub struct TextureImage {
    pub width: u32,
    pub height: u32,
    /// RGBA8 pixels, row by row.
    pub pixels: Vec<u8>,
}

impl TextureImage {
    /// The image that decoding produced, kept as it came.
    pub fn from_decoded(width: u32, height: u32, pixels: Vec<u8>) -> (r: TextureImage)
        ensures
            r.width == width,
            r.height == height,
            r.pixels@ == pixels@,
    {
        TextureImage { width, height, pixels }
    }

    /// Decodes `bytes` as any supported image container.
    pub fn from_bytes(bytes: &[u8]) -> (r: Result<TextureImage, TextureError>)
        ensures
            match r {
                Ok(t) => decoded_rgba8(bytes@) == Some((t.width, t.height, t.pixels@)),
                Err(TextureError::Decode) => decoded_rgba8(bytes@) is None,
            },
    {
        match decode_rgba8(bytes) {
            Ok((w, h, px)) => Ok(TextureImage::from_decoded(w, h, px)),
            Err(_) => Err(TextureError::Decode),
        }
    }

    /// The size in pixels.
    pub fn dimensions(&self) -> (r: (u32, u32))
        ensures
            r == (self.width, self.height),
    {
        (self.width, self.height)
    }

    /// Bytes in one row of RGBA8 pixels; none when that does not fit in a `u32`.
    pub fn bytes_per_row(&self) -> (r: Option<u32>)
        ensures
            match r {
                Some(n) => n == 4 * self.width,
                None => 4 * self.width > u32::MAX,
            },
    {
        if self.width <= u32::MAX / 4 {
            Some(4 * self.width)
        } else {
            None
        }
    }
}

} // verus!
