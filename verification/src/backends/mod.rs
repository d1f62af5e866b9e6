//! Backends: how an image file becomes the raw RGB8 bytes from which the
//! colours are gathered.
use vstd::prelude::*;

use crate::accent::Accent;

pub mod picture;

use picture::{
    decode_image, decoded_dimensions, decoded_rgb8, fir_resize_u8x3, fir_resized,
    gaussian_resized_rgb8, image_decodes, picture_dimensions, picture_resize_rgb8, picture_rgb8,
    picture_thumbnail_rgb8, thumbnail_rgb8, FirFailure,
};
use image::ImageError;

verus! {

/// Which image parser to use, the `backend` parameter of the configuration.
#[derive(Debug, Clone, Copy, PartialEq, Eq, Structural, Hash)]
pub enum Backend {
    /// All the pixels of the image.
    Full,
    /// The image halved when one side reaches 1024 pixels.
    Resized,
    /// ImageMagick `convert`/`magick`, like pywal.
    Wal,
    /// A 512x512 thumbnail.
    Thumb,
    /// A SIMD resize to a quarter of each side above 512 pixels (the default).
    FastResize,
    /// K-means clustering of the pixels.
    Kmeans,
}

impl Default for Backend {
    fn default() -> (b: Self)
        ensures
            b == Backend::FastResize,
    {
        Backend::FastResize
    }
}

/// The displayed name of a backend, used in cache file names.
pub open spec fn backend_name_spec(b: Backend) -> Seq<char> {
    match b {
        Backend::Full => "Full"@,
        Backend::Resized => "Resized"@,
        Backend::Wal => "Wal"@,
        Backend::Thumb => "Thumb"@,
        Backend::FastResize => "FastResize"@,
        Backend::Kmeans => "Kmeans"@,
    }
}

impl Backend {
    /// The colour in which the backend is shown.
    pub fn col(&self) -> (a: Accent)
        ensures
            a == match *self {
                Backend::Full => Accent::Blue,
                Backend::Resized => Accent::Cyan,
                Backend::Wal => Accent::Red,
                Backend::Thumb => Accent::Magenta,
                Backend::FastResize => Accent::Green,
                Backend::Kmeans => Accent::BrightBlue,
            },
    {
        match self {
            Backend::Full => Accent::Blue,
            Backend::Resized => Accent::Cyan,
            Backend::Wal => Accent::Red,
            Backend::Thumb => Accent::Magenta,
            Backend::FastResize => Accent::Green,
            Backend::Kmeans => Accent::BrightBlue,
        }
    }

    /// The displayed name (`Full`, `Resized`, ...), used in cache file names.
    pub fn name(&self) -> (s: String)
        ensures
            s@ == backend_name_spec(*self),
    {
        match self {
            Backend::Full => String::from_str("Full"),
            Backend::Resized => String::from_str("Resized"),
            Backend::Wal => String::from_str("Wal"),
            Backend::Thumb => String::from_str("Thumb"),
            Backend::FastResize => String::from_str("FastResize"),
            Backend::Kmeans => String::from_str("Kmeans"),
        }
    }
}

/// Why a backend produced no pixels.
#[derive(Debug)]
pub enum BackendError {
    /// The image could not be decoded.
    Decode(ImageError),
    /// The image is too large for the SIMD resizer's buffers.
    TooLarge,
    /// The SIMD resizer refused the image.
    Resize(FirFailure),
}

/// The size that the `resized` backend gives an image of `w` x `h`: both
/// sides halved once one of them reaches 1024 pixels.
pub open spec fn shrink_spec(w: u32, h: u32) -> (u32, u32) {
    if w >= 1024 || h >= 1024 {
        ((w / 2) as u32, (h / 2) as u32)
    } else {
        (w, h)
    }
}

/// The new size of an image for the `resized` backend, keeping the aspect
/// ratio.
pub fn shrink(w: u32, h: u32) -> (r: (u32, u32))
    ensures
        r == shrink_spec(w, h),
{
    let resized = w >= 1024 || h >= 1024;
    if resized {
        (w / 2, h / 2)
    } else {
        (w, h)
    }
}

/// The size of one side for the `fastresize` backend: a quarter above 512
/// pixels.
pub open spec fn fast_side_spec(x: u32) -> u32 {
    if x > 512 {
        (x / 4) as u32
    } else {
        x
    }
}

fn fast_side(x: u32) -> (r: u32)
    ensures
        r == fast_side_spec(x),
{
    if x > 512 {
        x / 4
    } else {
        x
    }
}

/// The `full` backend: every pixel of the image, as RGB8 bytes.
pub fn full(image: &[u8]) -> (r: Result<Vec<u8>, BackendError>)
    ensures
        r is Ok <==> image_decodes(image@),
        r matches Ok(v) ==> v@ == decoded_rgb8(image@),
        r matches Ok(v) ==> v@.len() == decoded_dimensions(image@).0 as int * decoded_dimensions(
            image@,
        ).1 as int * 3,
        r matches Err(e) ==> e is Decode,
{
    match decode_image(image) {
        Ok(p) => Ok(picture_rgb8(p)),
        Err(e) => Err(BackendError::Decode(e)),
    }
}

/// The `resized` backend: the image resized (Gaussian filter) to
/// `shrink` of its size, as RGB8 bytes.
pub fn resized(image: &[u8]) -> (r: Result<Vec<u8>, BackendError>)
    ensures
        r is Ok <==> image_decodes(image@),
        r matches Ok(v) ==> v@ == gaussian_resized_rgb8(
            image@,
            shrink_spec(decoded_dimensions(image@).0, decoded_dimensions(image@).1).0,
            shrink_spec(decoded_dimensions(image@).0, decoded_dimensions(image@).1).1,
        ),
        r matches Err(e) ==> e is Decode,
{
    let p = match decode_image(image) {
        Ok(p) => p,
        Err(e) => return Err(BackendError::Decode(e)),
    };
    let (true_w, true_h) = picture_dimensions(&p);
    let (w, h) = shrink(true_w, true_h);
    Ok(picture_resize_rgb8(&p, w, h))
}

/// The `thumb` backend: a thumbnail that fits in 512x512, as RGB8 bytes.
pub fn thumb(image: &[u8]) -> (r: Result<Vec<u8>, BackendError>)
    ensures
        r is Ok <==> image_decodes(image@),
        r matches Ok(v) ==> v@ == thumbnail_rgb8(image@, 512, 512),
        r matches Err(e) ==> e is Decode,
{
    match decode_image(image) {
        Ok(p) => Ok(picture_thumbnail_rgb8(&p, 512, 512)),
        Err(e) => Err(BackendError::Decode(e)),
    }
}

/// Whether the SIMD resizer's `width * height * 3` fits in a `usize`.
pub open spec fn fits_u8x3(w: u32, h: u32) -> bool {
    (w as int) * (h as int) * 3 <= usize::MAX
}

/// The `fastresize` backend: the RGB8 pixels resized with
/// `fast_image_resize`, each side above 512 pixels brought to a quarter.
pub fn fast_resize(image: &[u8]) -> (r: Result<Vec<u8>, BackendError>)
    ensures
        ({
            let (w, h) = decoded_dimensions(image@);
            let pixels = decoded_rgb8(image@);
            &&& (r matches Err(BackendError::Decode(_))) <==> !image_decodes(image@)
            &&& (r matches Err(BackendError::TooLarge)) <==> image_decodes(image@) && !fits_u8x3(w, h)
            &&& r is Ok <==> image_decodes(image@) && fits_u8x3(w, h)
            &&& r matches Ok(v) ==> v@ == fir_resized(pixels, w, h, fast_side_spec(w), fast_side_spec(h))
            &&& r matches Ok(v) ==> v@.len() == fast_side_spec(w) as int * fast_side_spec(h) as int * 3
        }),
{
    let p = match decode_image(image) {
        Ok(p) => p,
        Err(e) => return Err(BackendError::Decode(e)),
    };
    let (true_w, true_h) = picture_dimensions(&p);
    proof {
        assert((true_w as int) * (true_h as int) <= 0xffff_ffff * 0xffff_ffff) by (nonlinear_arith)
            requires
                true_w <= 0xffff_ffff,
                true_h <= 0xffff_ffff,
        ;
    }
    let wide: u64 = true_w as u64 * true_h as u64;
    if wide > (usize::MAX / 3) as u64 {
        return Err(BackendError::TooLarge);
    }
    let pixels = picture_rgb8(p);
    let w = fast_side(true_w);
    let h = fast_side(true_h);
    proof {
        assert((w as int) * (h as int) <= (true_w as int) * (true_h as int)) by (nonlinear_arith)
            requires
                w <= true_w,
                h <= true_h,
        ;
    }
    match fir_resize_u8x3(pixels.as_slice(), true_w, true_h, w, h) {
        Ok(v) => Ok(v),
        Err(e) => Err(BackendError::Resize(e)),
    }
}

} // verus!
