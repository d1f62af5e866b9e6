//! Decoded images and the operations of the `image` and `fast_image_resize`
//! crates that the backends use. Every item here is trusted: its contract
//! names what the outside crate computes, and nothing in this file is proved.
use vstd::prelude::*;

use fast_image_resize::images::{Image, ImageRef};
use fast_image_resize::{PixelType, Resizer};
use image::{DynamicImage, GenericImageView, ImageError};

verus! {

#[verifier::external_type_specification]
#[verifier::external_body]
pub struct ExDynamicImage(DynamicImage);

#[verifier::external_type_specification]
#[verifier::external_body]
pub struct ExImageError(ImageError);

/// Whether `image` decodes these bytes (format guessed from the content).
pub uninterp spec fn image_decodes(bytes: Seq<u8>) -> bool;

/// Width and height of the image decoded from these bytes.
pub uninterp spec fn decoded_dimensions(bytes: Seq<u8>) -> (u32, u32);

/// The raw RGB8 pixels (row-major, 3 bytes a pixel) of the image decoded from
/// these bytes.
pub uninterp spec fn decoded_rgb8(bytes: Seq<u8>) -> Seq<u8>;

/// The raw RGB8 pixels of the image decoded from these bytes, after
/// `DynamicImage::resize(w, h, Gaussian)` (aspect ratio kept).
pub uninterp spec fn gaussian_resized_rgb8(bytes: Seq<u8>, w: u32, h: u32) -> Seq<u8>;

/// The raw RGB8 pixels of the image decoded from these bytes, after
/// `DynamicImage::thumbnail(w, h)`.
pub uninterp spec fn thumbnail_rgb8(bytes: Seq<u8>, w: u32, h: u32) -> Seq<u8>;

/// An image decoded by the `image` crate, together with the bytes it was
/// decoded from, which are its view.
pub(crate) struct Picture {
    image: DynamicImage,
    source: Ghost<Seq<u8>>,
}

impl View for Picture {
    type V = Seq<u8>;

    closed spec fn view(&self) -> Seq<u8> {
        self.source@
    }
}

/// Decodes an image file held in memory with `image::load_from_memory`
/// (`ImageReader` with a format guessed from the content, then `decode`).
/// Trusted: it succeeds exactly when `image_decodes` holds of the bytes, and
/// the picture remembers the bytes it came from.
#[verifier::external_body]
pub(crate) fn decode_image(bytes: &[u8]) -> (r: Result<Picture, ImageError>)
    ensures
        r is Ok <==> image_decodes(bytes@),
        r matches Ok(p) ==> p@ == bytes@,
{
    match image::load_from_memory(bytes) {
        Ok(image) => Ok(Picture { image, source: Ghost(bytes@) }),
        Err(e) => Err(e),
    }
}

/// `GenericImageView::dimensions` of the decoded image.
/// Trusted: it gives `decoded_dimensions` of the source bytes.
#[verifier::external_body]
pub(crate) fn picture_dimensions(p: &Picture) -> (r: (u32, u32))
    ensures
        r == decoded_dimensions(p@),
{
    p.image.dimensions()
}

/// `DynamicImage::into_rgb8` then `into_raw`: the RGB8 pixels.
/// Trusted: it gives `decoded_rgb8` of the source bytes, three bytes for
/// each of the image's pixels.
#[verifier::external_body]
pub(crate) fn picture_rgb8(p: Picture) -> (r: Vec<u8>)
    ensures
        r@ == decoded_rgb8(p@),
        r@.len() == decoded_dimensions(p@).0 as int * decoded_dimensions(p@).1 as int * 3,
{
    p.image.into_rgb8().into_raw()
}

/// `DynamicImage::resize(w, h, FilterType::Gaussian)`, then the RGB8 pixels.
/// Trusted: it gives `gaussian_resized_rgb8` of the source bytes and the size.
#[verifier::external_body]
pub(crate) fn picture_resize_rgb8(p: &Picture, w: u32, h: u32) -> (r: Vec<u8>)
    ensures
        r@ == gaussian_resized_rgb8(p@, w, h),
{
    p.image.resize(w, h, image::imageops::FilterType::Gaussian).into_rgb8().into_raw()
}

/// `DynamicImage::thumbnail(w, h)`, then the RGB8 pixels.
/// Trusted: it gives `thumbnail_rgb8` of the source bytes and the size.
#[verifier::external_body]
pub(crate) fn picture_thumbnail_rgb8(p: &Picture, w: u32, h: u32) -> (r: Vec<u8>)
    ensures
        r@ == thumbnail_rgb8(p@, w, h),
{
    p.image.thumbnail(w, h).into_rgb8().into_raw()
}

/// Why `fast_image_resize` refused to resize.
#[derive(Debug)]
pub enum FirFailure {
    /// The source buffer is smaller than `width * height * 3`.
    Buffer(fast_image_resize::ImageBufferError),
    /// The resizer refused the images.
    Resize(fast_image_resize::ResizeError),
}

#[verifier::external_type_specification]
#[verifier::external_body]
pub struct ExImageBufferError(fast_image_resize::ImageBufferError);

#[verifier::external_type_specification]
#[verifier::external_body]
pub struct ExResizeError(fast_image_resize::ResizeError);

/// The `U8x3` pixels that `fast_image_resize` gives for these pixels of size
/// `w` x `h`, resized to `dw` x `dh` with its default options.
pub uninterp spec fn fir_resized(pixels: Seq<u8>, w: u32, h: u32, dw: u32, dh: u32) -> Seq<u8>;

/// Resizes `U8x3` pixels with `fast_image_resize`: `ImageRef::new` over the
/// source, `Image::new` for the destination, `Resizer::new().resize(.., None)`
/// and `Image::into_vec`.
/// Trusted: as the crate's source shows, `ImageRef::new` refuses a source
/// buffer shorter than `w * h * 3` (a `U8x3` buffer is always aligned), and
/// the resizer, with both images `U8x3` and the default options (the whole
/// source), then succeeds; the result is `fir_resized`, the `dw * dh * 3`
/// bytes of the destination image. The sizes are bounded so that the
/// crate's own `width * height * 3` cannot overflow.
#[verifier::external_body]
pub(crate) fn fir_resize_u8x3(pixels: &[u8], w: u32, h: u32, dw: u32, dh: u32) -> (r: Result<Vec<u8>, FirFailure>)
    requires
        (w as int) * (h as int) * 3 <= usize::MAX,
        (dw as int) * (dh as int) * 3 <= usize::MAX,
    ensures
        r is Ok <==> pixels@.len() >= (w as int) * (h as int) * 3,
        r matches Ok(v) ==> v@ == fir_resized(pixels@, w, h, dw, dh),
        r matches Ok(v) ==> v@.len() == dw as int * dh as int * 3,
{
    let src = match ImageRef::new(w, h, pixels, PixelType::U8x3) {
        Ok(src) => src,
        Err(e) => return Err(FirFailure::Buffer(e)),
    };
    let mut dst = Image::new(dw, dh, src.pixel_type());
    match Resizer::new().resize(&src, &mut dst, None) {
        Ok(()) => Ok(dst.into_vec()),
        Err(e) => Err(FirFailure::Resize(e)),
    }
}

} // verus!
