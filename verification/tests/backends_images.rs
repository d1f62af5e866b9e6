use std::io::Cursor;

use image::{ImageFormat, Rgb, RgbImage};
use wallust::backends::{fast_resize, full, resized, shrink, thumb, BackendError};

fn png(w: u32, h: u32) -> (Vec<u8>, Vec<u8>) {
    let img = RgbImage::from_fn(w, h, |x, y| Rgb([(x % 256) as u8, (y % 256) as u8, 7]));
    let mut bytes = Vec::new();
    img.write_to(&mut Cursor::new(&mut bytes), ImageFormat::Png).unwrap();
    (bytes, img.into_raw())
}

#[test]
fn shrink_rule() {
    assert_eq!(shrink(800, 600), (800, 600));
    assert_eq!(shrink(1024, 10), (512, 5));
    assert_eq!(shrink(10, 2048), (5, 1024));
    assert_eq!(shrink(1023, 1023), (1023, 1023));
}

#[test]
fn full_gives_every_pixel() {
    let (file, pixels) = png(5, 3);
    assert_eq!(full(&file).unwrap(), pixels);
}

#[test]
fn undecodable_bytes() {
    let junk = b"definitely not an image";
    assert!(matches!(full(junk), Err(BackendError::Decode(_))));
    assert!(matches!(resized(junk), Err(BackendError::Decode(_))));
    assert!(matches!(thumb(junk), Err(BackendError::Decode(_))));
    assert!(matches!(fast_resize(junk), Err(BackendError::Decode(_))));
}

#[test]
fn resized_small_image_is_kept() {
    let (file, pixels) = png(20, 10);
    assert_eq!(resized(&file).unwrap(), pixels);
}

#[test]
fn resized_large_image_is_halved() {
    let (file, _) = png(1024, 4);
    assert_eq!(resized(&file).unwrap().len(), 512 * 2 * 3);
}

#[test]
fn thumb_fits_512() {
    let (file, _) = png(1024, 256);
    assert_eq!(thumb(&file).unwrap().len(), 512 * 128 * 3);
}

#[test]
fn fast_resize_quarters_large_sides() {
    let (file, _) = png(600, 10);
    assert_eq!(fast_resize(&file).unwrap().len(), 150 * 10 * 3);
    let (file, pixels) = png(30, 20);
    assert_eq!(fast_resize(&file).unwrap(), pixels);
}
