use pathtracer::image::Image;
use pathtracer::pixel::{pack_rgb, pixel_channels};

#[test]
fn pack_puts_red_in_the_low_byte() {
    assert_eq!(pack_rgb(1, 2, 3), 0x030201);
    assert_eq!(pack_rgb(255, 0, 0), 0xff);
    assert_eq!(pack_rgb(0, 0, 255), 0xff0000);
    assert_eq!(pack_rgb(255, 255, 255), 0xffffff);
}

#[test]
fn channels_read_back_packed_bytes() {
    for &(r, g, b) in &[(0u8, 0u8, 0u8), (1, 2, 3), (255, 128, 7), (9, 255, 254)] {
        assert_eq!(pixel_channels(pack_rgb(r, g, b)), (r, g, b));
    }
}

#[test]
fn channels_ignore_bits_above_the_blue_byte() {
    assert_eq!(pixel_channels(0x7f_030201), (1, 2, 3));
    assert_eq!(pixel_channels(-1), (255, 255, 255));
}

#[test]
fn default_image_is_empty() {
    let img = Image::default();
    assert_eq!(img.width(), 0);
    assert_eq!(img.height(), 0);
    assert_eq!(img.to_ppm_bytes(), b"P6\n0 0 255\n".to_vec());
}

#[test]
fn new_image_keeps_its_size_and_pixels() {
    let img = Image::new(2, 1, vec![vec![5, 6]]);
    assert_eq!(img.width(), 2);
    assert_eq!(img.height(), 1);
    assert_eq!(img.pixel(0, 0), 5);
    assert_eq!(img.pixel(1, 0), 6);
}

#[test]
fn ppm_bytes_hold_header_then_rgb_rows() {
    let pixels = vec![
        vec![pack_rgb(1, 2, 3), pack_rgb(4, 5, 6)],
        vec![pack_rgb(7, 8, 9), pack_rgb(10, 11, 12)],
    ];
    let img = Image::new(2, 2, pixels);
    let mut expected = b"P6\n2 2 255\n".to_vec();
    expected.extend_from_slice(&[1, 2, 3, 4, 5, 6, 7, 8, 9, 10, 11, 12]);
    assert_eq!(img.to_ppm_bytes(), expected);
}

#[test]
fn ppm_header_writes_multi_digit_sizes() {
    let img = Image::new(1920, 10, vec![vec![0; 1920]; 10]);
    let bytes = img.to_ppm_bytes();
    let header = b"P6\n1920 10 255\n";
    assert_eq!(&bytes[..header.len()], &header[..]);
    assert_eq!(bytes.len(), header.len() + 3 * 1920 * 10);
    assert!(bytes[header.len()..].iter().all(|&b| b == 0));
}

#[test]
fn ppm_bytes_read_only_the_declared_size() {
    let img = Image::new(1, 1, vec![vec![pack_rgb(9, 8, 7), 99], vec![42]]);
    let mut expected = b"P6\n1 1 255\n".to_vec();
    expected.extend_from_slice(&[9, 8, 7]);
    assert_eq!(img.to_ppm_bytes(), expected);
}
