//! Decoded images as plain pixel data, and the calls into the `image` crate
//! that decode and encode them.

use vstd::prelude::*;

verus! {

/// What a `Bitmap` stands for: its dimensions and its pixels, four bytes
/// (red, green, blue, alpha) per pixel, row by row.
pub struct BitmapView {
    pub width: nat,
    pub height: nat,
    pub rgba: Seq<u8>,
}

/// A decoded image in 8-bit RGBA. The pixel buffer always holds exactly
/// `4 * width * height` bytes.
#[derive(Debug, PartialEq, Eq)]
pub struct Bitmap {
    width: u32,
    height: u32,
    rgba: Vec<u8>,
}

/// The number of bytes that an RGBA8 buffer of the given dimensions holds.
pub open spec fn rgba_len(width: int, height: int) -> int {
    4 * (width * height)
}

/// The dimensions and RGBA8 pixels of the image that
/// `image::load_from_memory_with_format` decodes from `bytes` in the format
/// that `image::guess_format` names for them; `None` where either reports an
/// error.
pub uninterp spec fn image_pixels(bytes: Seq<u8>) -> Option<(u32, u32, Seq<u8>)>;

/// The dimensions and RGBA8 pixels of the image that
/// `image::load_from_memory_with_format` decodes from `bytes` as WebP; `None`
/// where it reports an error.
pub uninterp spec fn webp_pixels(bytes: Seq<u8>) -> Option<(u32, u32, Seq<u8>)>;

/// The lossless WebP file that `image::write_buffer_with_format` writes for an
/// RGBA8 buffer of the given dimensions; `None` where it reports an error.
pub uninterp spec fn webp_bytes(width: u32, height: u32, rgba: Seq<u8>) -> Option<Seq<u8>>;

/// Decoded parts with the pixel buffer taken by its view.
pub open spec fn parts_view(parts: Option<(u32, u32, Vec<u8>)>) -> Option<(u32, u32, Seq<u8>)> {
    match parts {
        Some((width, height, rgba)) => Some((width, height, rgba@)),
        None => None,
    }
}

/// An optional byte buffer taken by its view.
pub open spec fn bytes_view(bytes: Option<Vec<u8>>) -> Option<Seq<u8>> {
    match bytes {
        Some(b) => Some(b@),
        None => None,
    }
}

/// Calls `image::guess_format`, which goes by the leading bytes and the
/// formats built into the crate, then `image::load_from_memory_with_format`
/// with the format it names, and hands out the decoded image as RGBA8
/// (`DynamicImage::into_rgba8`). Neither call reads the formats and decoders
/// that a process can register with the crate, as `image::load_from_memory`
/// would. Trusted: the result is a function of the input bytes alone. Nothing
/// is claimed about the size of the buffer.
#[verifier::external_body]
fn load_pixels(bytes: &[u8]) -> (parts: Option<(u32, u32, Vec<u8>)>)
    ensures
        parts_view(parts) == image_pixels(bytes@),
{
    let decoded = match image::guess_format(bytes) {
        Ok(format) => image::load_from_memory_with_format(bytes, format),
        Err(e) => Err(e),
    };
    match decoded {
        Ok(image) => {
            let buffer = image.into_rgba8();
            Some((buffer.width(), buffer.height(), buffer.into_raw()))
        },
        Err(_) => None,
    }
}

/// Calls `image::load_from_memory_with_format` with `ImageFormat::WebP` and
/// hands out the decoded image as RGBA8. Trusted: the result is a function of
/// the input bytes alone. Nothing is claimed about the size of the buffer.
#[verifier::external_body]
fn load_webp_pixels(bytes: &[u8]) -> (parts: Option<(u32, u32, Vec<u8>)>)
    ensures
        parts_view(parts) == webp_pixels(bytes@),
{
    match image::load_from_memory_with_format(bytes, image::ImageFormat::WebP) {
        Ok(decoded) => {
            let buffer = decoded.into_rgba8();
            Some((buffer.width(), buffer.height(), buffer.into_raw()))
        },
        Err(_) => None,
    }
}

/// Calls `image::write_buffer_with_format` with `ExtendedColorType::Rgba8` and
/// `ImageFormat::WebP` on an in-memory cursor. The encoder panics on a buffer
/// whose length does not match the dimensions, so that is required. Trusted:
/// the bytes written are a function of the dimensions and pixels alone.
#[verifier::external_body]
fn write_webp(width: u32, height: u32, rgba: &[u8]) -> (bytes: Option<Vec<u8>>)
    requires
        rgba@.len() == rgba_len(width as int, height as int),
    ensures
        bytes_view(bytes) == webp_bytes(width, height, rgba@),
{
    let mut out = Vec::new();
    let mut cursor = std::io::Cursor::new(&mut out);
    let color = image::ExtendedColorType::Rgba8;
    let format = image::ImageFormat::WebP;
    match image::write_buffer_with_format(&mut cursor, rgba, width, height, color, format) {
        Ok(()) => Some(out),
        Err(_) => None,
    }
}

/// The bitmap that decoded parts make: the parts themselves where the buffer
/// has four bytes for every pixel, nothing otherwise.
pub open spec fn bitmap_of(parts: Option<(u32, u32, Seq<u8>)>) -> Option<BitmapView> {
    match parts {
        Some((width, height, rgba)) => if rgba.len() == rgba_len(width as int, height as int) {
            Some(BitmapView { width: width as nat, height: height as nat, rgba })
        } else {
            None
        },
        None => None,
    }
}

/// The bitmap decoded from an image file of any format built into the
/// decoder, told by its leading bytes.
pub open spec fn decoded_image(bytes: Seq<u8>) -> Option<BitmapView> {
    bitmap_of(image_pixels(bytes))
}

/// The bitmap decoded from a WebP file.
pub open spec fn decoded_webp(bytes: Seq<u8>) -> Option<BitmapView> {
    bitmap_of(webp_pixels(bytes))
}

/// The WebP file that stands for a bitmap.
pub open spec fn encoded_webp(image: BitmapView) -> Option<Seq<u8>> {
    if image.width <= u32::MAX && image.height <= u32::MAX {
        webp_bytes(image.width as u32, image.height as u32, image.rgba)
    } else {
        None
    }
}

/// An optional bitmap taken by its view.
pub open spec fn bitmap_view(image: Option<Bitmap>) -> Option<BitmapView> {
    match image {
        Some(b) => Some(b@),
        None => None,
    }
}

impl View for Bitmap {
    type V = BitmapView;

    closed spec fn view(&self) -> BitmapView {
        BitmapView { width: self.width as nat, height: self.height as nat, rgba: self.rgba@ }
    }
}

impl Bitmap {
    #[verifier::type_invariant]
    spec fn sized(self) -> bool {
        self.rgba@.len() == rgba_len(self.width as int, self.height as int)
    }

    /// Makes a bitmap of the given dimensions from an RGBA8 buffer, if the
    /// buffer has exactly four bytes for every pixel.
    pub fn from_rgba(width: u32, height: u32, rgba: Vec<u8>) -> (image: Option<Bitmap>)
        ensures
            bitmap_view(image) == bitmap_of(Some((width, height, rgba@))),
    {
        assert(0 <= width * height <= 0xffff_ffff * 0xffff_ffff) by (nonlinear_arith)
            requires
                0 <= width <= 0xffff_ffff,
                0 <= height <= 0xffff_ffff,
        ;
        let pixels: u64 = width as u64 * height as u64;
        if rgba.len() as u128 == 4 * (pixels as u128) {
            Some(Bitmap { width, height, rgba })
        } else {
            None
        }
    }

    /// Decodes an image file, guessing its format.
    pub fn decode(bytes: &[u8]) -> (image: Option<Bitmap>)
        ensures
            bitmap_view(image) == decoded_image(bytes@),
    {
        match load_pixels(bytes) {
            Some((width, height, rgba)) => Bitmap::from_rgba(width, height, rgba),
            None => None,
        }
    }

    /// Decodes a WebP file.
    pub fn decode_webp(bytes: &[u8]) -> (image: Option<Bitmap>)
        ensures
            bitmap_view(image) == decoded_webp(bytes@),
    {
        match load_webp_pixels(bytes) {
            Some((width, height, rgba)) => Bitmap::from_rgba(width, height, rgba),
            None => None,
        }
    }

    /// Encodes the bitmap as a lossless WebP file.
    pub fn encode_webp(&self) -> (bytes: Option<Vec<u8>>)
        ensures
            bytes_view(bytes) == encoded_webp(self@),
    {
        proof {
            use_type_invariant(self);
        }
        write_webp(self.width, self.height, self.rgba.as_slice())
    }

    pub fn width(&self) -> (w: u32)
        ensures
            w == self@.width,
    {
        self.width
    }

    pub fn height(&self) -> (h: u32)
        ensures
            h == self@.height,
    {
        self.height
    }

    /// The pixels, four bytes each, row by row.
    pub fn rgba(&self) -> (pixels: &[u8])
        ensures
            pixels@ == self@.rgba,
            pixels@.len() == rgba_len(self@.width as int, self@.height as int),
    {
        proof {
            use_type_invariant(self);
        }
        self.rgba.as_slice()
    }
}

} // verus!
