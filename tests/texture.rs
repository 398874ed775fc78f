use gena::{TextureError, TextureImage};

fn png_bytes(width: u32, height: u32) -> Vec<u8> {
    let img = image::RgbaImage::from_pixel(width, height, image::Rgba([10, 20, 30, 255]));
    let mut bytes: Vec<u8> = Vec::new();
    img.write_to(&mut std::io::Cursor::new(&mut bytes), image::ImageFormat::Png).unwrap();
    bytes
}

#[test]
fn decoded_texture_has_the_image_size() {
    let t = TextureImage::from_bytes(&png_bytes(3, 2)).unwrap();
    assert_eq!(t.dimensions(), (3, 2));
    assert_eq!(t.pixels.len(), 3 * 2 * 4);
    assert_eq!(&t.pixels[0..4], &[10, 20, 30, 255]);
    assert_eq!(t.bytes_per_row(), Some(12));
}

#[test]
fn malformed_bytes_are_a_decode_error() {
    assert!(matches!(TextureImage::from_bytes(b"definitely not an image"), Err(TextureError::Decode)));
    assert!(matches!(TextureImage::from_bytes(&[]), Err(TextureError::Decode)));
}

#[test]
fn rows_too_wide_for_u32_have_no_byte_count() {
    let t = TextureImage::from_decoded(u32::MAX, 1, Vec::new());
    assert_eq!(t.bytes_per_row(), None);
}
