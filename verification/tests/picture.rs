//! Colour arithmetic, the pixel buffer, coordinate walking, BMP encoding
//! and the progress counter (1.0 == 65536).

use pathtracer::bmp::Bmp;
use pathtracer::colour::Colour;
use pathtracer::coordinates::ImageCoordinates;
use pathtracer::fixed::SCALE;
use pathtracer::image::Image;
use pathtracer::progress::Progress;

const S: i64 = SCALE;

#[test]
fn colour_arithmetic() {
    let a = Colour::from_rgb(S, S / 2, 0);
    let b = Colour::from_rgb(S / 2, S / 2, S);
    assert_eq!(a.add(b), Colour::from_rgb(3 * S / 2, S, S));
    assert_eq!(a.mul(b), Colour::from_rgb(S / 2, S / 4, 0));
    assert_eq!(a.scale(2 * S), Colour::from_rgb(2 * S, S, 0));
    assert_eq!(a.div(2 * S), Colour::from_rgb(S / 2, S / 4, 0));
}

#[test]
fn colour_clamp_and_sqrt() {
    let c = Colour::from_rgb(-5, 2 * S, S / 2);
    assert_eq!(c.clamp(0, S), Colour::from_rgb(0, S, S / 2));
    // sqrt(1) == 1, sqrt(1/4) == 1/2.
    assert_eq!(Colour::from_rgb(S, S / 4, 0).sqrt(), Colour::from_rgb(S, S / 2, 0));
}

#[test]
fn colour_new_is_black() {
    assert_eq!(Colour::new(), Colour::from_rgb(0, 0, 0));
}

#[test]
fn image_set_and_get_pixel() {
    let mut img = Image::new(4, 3);
    assert_eq!(*img.get_pixel(2, 1), Colour::new());
    img.set_pixel(2, 1, Colour::from_rgb(1, 2, 3));
    assert_eq!(*img.get_pixel(2, 1), Colour::from_rgb(1, 2, 3));
    assert_eq!(*img.get_pixel(1, 2), Colour::new());
}

#[test]
fn coordinates_walk_row_major() {
    let mut c = ImageCoordinates::new(2, 2);
    assert_eq!(c.next(), Some((0, 0)));
    assert_eq!(c.next(), Some((1, 0)));
    assert_eq!(c.next(), Some((0, 1)));
    assert_eq!(c.next(), Some((1, 1)));
    assert_eq!(c.next(), None);
    assert_eq!(c.next(), None);
}

#[test]
fn coordinates_of_empty_grid() {
    let mut c = ImageCoordinates::new(0, 5);
    assert_eq!(c.next(), None);
}

#[test]
fn into_u8_converts_channels() {
    let mut img = Image::new(2, 1);
    img.set_pixel(0, 0, Colour::from_rgb(S, S / 2, 0));
    img.set_pixel(1, 0, Colour::from_rgb(-S, 2 * S, S / 4));
    let bytes = img.into_u8();
    assert_eq!(bytes.len(), 8);
    // 255 * 1.0 saturates at 255; 255 * 0.5 truncates to 127.
    assert_eq!(&bytes[0..4], &[255, 127, 0, 255]);
    // Negative saturates at 0, 2.0 at 255, 0.25 gives 63.
    assert_eq!(&bytes[4..8], &[0, 255, 63, 255]);
}

#[test]
fn bmp_encode_header_and_pixels() {
    let mut img = Image::new(2, 2);
    img.set_pixel(0, 0, Colour::from_rgb(S, 0, S / 2));
    img.set_pixel(1, 1, Colour::from_rgb(0, S, 0));
    let bytes = Bmp::encode(&img);
    // Row stride: 3*2 + 2 % 4 = 8 bytes; array 16; file 70.
    assert_eq!(bytes.len(), 70);
    assert_eq!(bytes[0], b'B');
    assert_eq!(bytes[1], b'M');
    assert_eq!(&bytes[2..6], &[70, 0, 0, 0]);
    assert_eq!(&bytes[10..14], &[54, 0, 0, 0]);
    assert_eq!(&bytes[14..18], &[40, 0, 0, 0]);
    assert_eq!(&bytes[18..22], &[2, 0, 0, 0]);
    // Height stored negated: -2 in two's complement.
    assert_eq!(&bytes[22..26], &[254, 255, 255, 255]);
    assert_eq!(&bytes[26..30], &[1, 0, 24, 0]);
    assert_eq!(&bytes[34..38], &[16, 0, 0, 0]);
    // Pixel (0,0): blue, green, red bytes.
    assert_eq!(&bytes[54..57], &[127, 0, 255]);
    // Pixel (1,0) is black; row padding is zero.
    assert_eq!(&bytes[57..62], &[0, 0, 0, 0, 0]);
    // Pixel (1,1) in the second row: offset 54 + 8 + 3.
    assert_eq!(&bytes[65..68], &[0, 255, 0]);
}

#[test]
fn progress_counts_steps() {
    let mut p = Progress::new(10);
    assert_eq!(p.get(), (0, 10));
    p.next();
    p.next();
    assert_eq!(p.get(), (2, 10));
}
