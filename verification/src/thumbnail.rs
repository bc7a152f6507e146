//! Preview pictures: decoded, scaled to the size at which they are shown and
//! held as plain RGBA bytes.

use vstd::prelude::*;
use vstd::string::StringExecFns;
use crate::error::GbError;

verus! {

/// The width of the box into which a preview is scaled.
pub const THUMB_WIDTH: u32 = 440;

/// The height of the box into which a preview is scaled.
pub const THUMB_HEIGHT: u32 = 248;

/// The formats that previews are decoded from.
#[derive(Clone, Copy, Debug, PartialEq, Eq)]
pub enum PictureFormat {
    Png,
    Jpeg,
    Gif,
    WebP,
    Bmp,
}

/// What `image::guess_format` makes of the first bytes of an encoded
/// picture, where that is one of the formats of [`PictureFormat`].
pub uninterp spec fn guessed_format(bytes: Seq<u8>) -> Option<PictureFormat>;

/// The width and height of the picture that `image::load_from_memory_with_format`
/// decodes from `bytes` read as `format`, and nothing where it refuses them.
pub uninterp spec fn decoded_size(bytes: Seq<u8>, format: PictureFormat) -> Option<(u32, u32)>;

/// The width and height that `image::DynamicImage::resize` gives to a
/// picture of `width` by `height` scaled into a box, keeping its proportions.
pub uninterp spec fn scaled_size(width: u32, height: u32, box_width: u32, box_height: u32) -> (
    u32,
    u32,
);

/// Calls `image::guess_format`, which tells a picture's format by the
/// signature at its start and reads nothing but the bytes. Formats outside
/// [`PictureFormat`] count as none. The result is only named.
#[verifier::external_body]
fn guess_picture_format(bytes: &[u8]) -> (out: Option<PictureFormat>)
    ensures
        out == guessed_format(bytes@),
{
    match image::guess_format(bytes) {
        Ok(image::ImageFormat::Png) => Some(PictureFormat::Png),
        Ok(image::ImageFormat::Jpeg) => Some(PictureFormat::Jpeg),
        Ok(image::ImageFormat::Gif) => Some(PictureFormat::Gif),
        Ok(image::ImageFormat::WebP) => Some(PictureFormat::WebP),
        Ok(image::ImageFormat::Bmp) => Some(PictureFormat::Bmp),
        _ => None,
    }
}

/// Calls `image::load_from_memory_with_format`, which decodes with the
/// built-in decoder of the format and reads nothing but the bytes, and hands
/// out the picture as RGBA bytes with its width and height, or the words of
/// the failure. Claimed: it succeeds exactly where the named size is there,
/// the size is the named one, and the buffer holds four bytes for each
/// pixel and no more, as the decoders allocate it.
#[verifier::external_body]
fn decode_rgba(bytes: &[u8], format: PictureFormat) -> (out: Result<(Vec<u8>, u32, u32), String>)
    ensures
        match out {
            Ok(picture) => decoded_size(bytes@, format) == Some((picture.1, picture.2))
                && picture.0@.len() == 4 * picture.1 * picture.2,
            Err(_) => decoded_size(bytes@, format) is None,
        },
{
    let format = match format {
        PictureFormat::Png => image::ImageFormat::Png,
        PictureFormat::Jpeg => image::ImageFormat::Jpeg,
        PictureFormat::Gif => image::ImageFormat::Gif,
        PictureFormat::WebP => image::ImageFormat::WebP,
        PictureFormat::Bmp => image::ImageFormat::Bmp,
    };
    let decoded = image::load_from_memory_with_format(bytes, format).map_err(|e| e.to_string())?;
    let buffer = decoded.into_rgba8();
    let (width, height) = buffer.dimensions();
    Ok((buffer.into_raw(), width, height))
}

/// Calls `image::DynamicImage::resize` with the nearest-neighbour filter on
/// a picture of RGBA bytes, and hands out the scaled picture in the same
/// form. Claimed: the new size is the named one; for a box of at least one
/// pixel each way it is at least one pixel each way and within the box; and
/// the buffer holds four bytes for each pixel and no more. Nothing is
/// claimed of the pixels.
#[verifier::external_body]
fn scale_rgba(pixels: Vec<u8>, width: u32, height: u32, box_width: u32, box_height: u32) -> (out: (
    Vec<u8>,
    u32,
    u32,
))
    requires
        pixels@.len() == 4 * width * height,
        box_width >= 1,
        box_height >= 1,
    ensures
        (out.1, out.2) == scaled_size(width, height, box_width, box_height),
        1 <= out.1 <= box_width,
        1 <= out.2 <= box_height,
        out.0@.len() == 4 * out.1 * out.2,
{
    let source = image::RgbaImage::from_raw(width, height, pixels).unwrap_or_default();
    let filter = image::imageops::FilterType::Nearest;
    let scaled = image::DynamicImage::ImageRgba8(source).resize(box_width, box_height, filter);
    let buffer = scaled.into_rgba8();
    let (width, height) = buffer.dimensions();
    (buffer.into_raw(), width, height)
}

/// A preview picture: `width` by `height` pixels of four bytes each, row by
/// row, no larger than the box of [`THUMB_WIDTH`] by [`THUMB_HEIGHT`].
#[derive(Debug, PartialEq, Eq)]
pub struct Thumbnail {
    width: u32,
    height: u32,
    pixels: Vec<u8>,
}

/// Whether `count` bytes are the pixels of a picture of `width` by `height`
/// that fits the preview box.
pub open spec fn fits_preview(count: nat, width: u32, height: u32) -> bool {
    &&& 1 <= width <= THUMB_WIDTH
    &&& 1 <= height <= THUMB_HEIGHT
    &&& count == 4 * width * height
}

impl Clone for Thumbnail {
    fn clone(&self) -> (out: Self)
        ensures
            out.spec_width() == self.spec_width(),
            out.spec_height() == self.spec_height(),
            out.spec_pixels() == self.spec_pixels(),
    {
        proof {
            use_type_invariant(self);
        }
        Thumbnail { width: self.width, height: self.height, pixels: self.pixels.clone() }
    }
}

impl Thumbnail {
    #[verifier::type_invariant]
    spec fn fits(&self) -> bool {
        fits_preview(self.pixels@.len(), self.width, self.height)
    }

    /// The picture's width in pixels.
    pub closed spec fn spec_width(&self) -> u32 {
        self.width
    }

    /// The picture's height in pixels.
    pub closed spec fn spec_height(&self) -> u32 {
        self.height
    }

    /// The picture's bytes.
    pub closed spec fn spec_pixels(&self) -> Seq<u8> {
        self.pixels@
    }

    /// Makes a preview of pixels that fit the preview box, and refuses
    /// others.
    pub fn from_rgba(pixels: Vec<u8>, width: u32, height: u32) -> (made: Result<Thumbnail, GbError>)
        ensures
            made is Ok <==> fits_preview(pixels@.len(), width, height),
            made matches Ok(t) ==> t.spec_width() == width && t.spec_height() == height
                && t.spec_pixels() == pixels@,
            made matches Err(e) ==> e is Image,
    {
        if width < 1 || width > THUMB_WIDTH || height < 1 || height > THUMB_HEIGHT {
            return Err(GbError::Image(String::from_str("the picture does not fit the preview")));
        }
        assert(4 * width * height <= 4 * 440 * 248) by (nonlinear_arith)
            requires
                width <= 440,
                height <= 248,
        ;
        let wanted: usize = 4 * (width as usize) * (height as usize);
        if pixels.len() != wanted {
            return Err(GbError::Image(String::from_str("the picture is not made of RGBA pixels")));
        }
        Ok(Thumbnail { width, height, pixels })
    }

    /// The picture's width in pixels.
    pub fn width(&self) -> (w: u32)
        ensures
            w == self.spec_width(),
            1 <= w <= THUMB_WIDTH,
    {
        proof {
            use_type_invariant(self);
        }
        self.width
    }

    /// The picture's height in pixels.
    pub fn height(&self) -> (h: u32)
        ensures
            h == self.spec_height(),
            1 <= h <= THUMB_HEIGHT,
    {
        proof {
            use_type_invariant(self);
        }
        self.height
    }

    /// The picture's bytes: four for each pixel, row by row.
    pub fn pixels(&self) -> (bytes: &Vec<u8>)
        ensures
            bytes@ == self.spec_pixels(),
            bytes@.len() == 4 * self.spec_width() * self.spec_height(),
    {
        proof {
            use_type_invariant(self);
        }
        &self.pixels
    }
}

/// The size of the preview that [`get_image`] makes of the encoded picture
/// `bytes`: that of the decoded picture scaled into the preview box, and
/// nothing where the format of the bytes is not known or they do not decode.
pub open spec fn preview_size(bytes: Seq<u8>) -> Option<(u32, u32)> {
    match guessed_format(bytes) {
        Some(format) => match decoded_size(bytes, format) {
            Some((width, height)) => Some(scaled_size(width, height, THUMB_WIDTH, THUMB_HEIGHT)),
            None => None,
        },
        None => None,
    }
}

/// Decodes an encoded picture and scales it into the preview box with the
/// nearest-neighbour filter, keeping its proportions. Bytes of a known
/// format that decode always give a preview, of the size that scaling
/// gives; any other bytes give an [`GbError::Image`].
pub fn get_image(bytes: &[u8]) -> (made: Result<Thumbnail, GbError>)
    ensures
        match made {
            Ok(t) => preview_size(bytes@) == Some((t.spec_width(), t.spec_height()))
                && fits_preview(t.spec_pixels().len(), t.spec_width(), t.spec_height()),
            Err(e) => preview_size(bytes@) is None && e is Image,
        },
{
    let format = match guess_picture_format(bytes) {
        Some(format) => format,
        None => {
            return Err(GbError::Image(String::from_str("the format of the picture is not known")));
        },
    };
    match decode_rgba(bytes, format) {
        Ok((pixels, width, height)) => {
            let (scaled, scaled_width, scaled_height) = scale_rgba(
                pixels,
                width,
                height,
                THUMB_WIDTH,
                THUMB_HEIGHT,
            );
            Thumbnail::from_rgba(scaled, scaled_width, scaled_height)
        },
        Err(reason) => Err(GbError::Image(reason)),
    }
}

} // verus!
