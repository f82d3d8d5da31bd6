use std::io::Cursor;

use convolver::loader::{load_raster, LoadError};

fn encode_png(img: image::DynamicImage) -> Vec<u8> {
    let mut bytes = Cursor::new(Vec::new());
    img.write_to(&mut bytes, image::ImageOutputFormat::Png).unwrap();
    bytes.into_inner()
}

#[test]
fn gray_png_loads_as_is() {
    let img = image::DynamicImage::ImageLuma8(
        image::GrayImage::from_raw(3, 2, vec![7, 200, 0, 255, 1, 99]).unwrap(),
    );
    let r = load_raster(&encode_png(img)).unwrap();
    assert_eq!(r.width(), 3);
    assert_eq!(r.height(), 2);
    assert_eq!(r.pixels(), &vec![7, 200, 0, 255, 1, 99]);
}

#[test]
fn color_png_is_converted_to_luminance() {
    let img = image::DynamicImage::ImageRgb8(
        image::RgbImage::from_raw(2, 1, vec![255, 0, 0, 255, 255, 255]).unwrap(),
    );
    let r = load_raster(&encode_png(img)).unwrap();
    assert_eq!((r.width(), r.height()), (2, 1));
    assert_eq!(r.pixels(), &vec![54, 255]);
}

#[test]
fn garbage_bytes_are_refused() {
    assert_eq!(load_raster(&[1, 2, 3, 4]).unwrap_err(), LoadError::Undecodable);
    assert_eq!(load_raster(&[]).unwrap_err(), LoadError::Undecodable);
}
