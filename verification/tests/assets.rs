use psp_engine::assets::{header_fits_check, pixels_fit_check, read_u32_le, Raw, BMP};
use psp_engine::engine_assets;

fn put_u32(file: &mut [u8], at: usize, v: u32) {
    file[at..at + 4].copy_from_slice(&v.to_le_bytes());
}

fn header(width: u32, height: u32, bits: u16, pixels: &[u8]) -> Vec<u8> {
    let mut file = vec![0u8; 54];
    file[0] = b'B';
    file[1] = b'M';
    put_u32(&mut file, 10, 54);
    put_u32(&mut file, 14, 40);
    put_u32(&mut file, 18, width);
    put_u32(&mut file, 22, height);
    file[28..30].copy_from_slice(&bits.to_le_bytes());
    file.extend_from_slice(pixels);
    file
}

#[test]
fn read_u32_le_reads_little_endian() {
    assert_eq!(read_u32_le(&[0x78, 0x56, 0x34, 0x12, 0xFF], 0), 0x1234_5678);
    assert_eq!(read_u32_le(&[0xFF, 0x01, 0, 0, 0], 1), 1);
}

#[test]
fn bmp_24_bit_rows_are_flipped_and_swapped() {
    // Bottom row first, each row padded from 6 to 8 bytes.
    let pixels = [1, 2, 3, 4, 5, 6, 0, 0, 7, 8, 9, 10, 11, 12, 0, 0];
    let file = header(2, 2, 24, &pixels);
    assert!(header_fits_check(&file));
    let mut bmp = BMP::default();
    bmp.load_header(&file);
    assert_eq!(bmp.offset, 54);
    assert_eq!(bmp.bih.header_size, 40);
    assert_eq!(bmp.bih.width, 2);
    assert_eq!(bmp.bih.height, 2);
    assert_eq!(bmp.bih.bits, 24);
    assert_eq!(bmp.size, 16);
    assert!(pixels_fit_check(file.len(), bmp.offset, 2, 2, 24));
    bmp.load_pixels(&file);
    assert_eq!(
        bmp.handle.unwrap(),
        vec![9, 8, 7, 0xFF, 12, 11, 10, 0xFF, 3, 2, 1, 0xFF, 6, 5, 4, 0xFF]
    );
}

#[test]
fn bmp_32_bit_keeps_alpha() {
    let file = header(1, 1, 32, &[10, 20, 30, 40]);
    let mut bmp = BMP::default();
    bmp.load_header(&file);
    assert_eq!(bmp.size, 4);
    bmp.load_pixels(&file);
    assert_eq!(bmp.handle.unwrap(), vec![30, 20, 10, 40]);
}

#[test]
fn bmp_checks_refuse_short_files() {
    assert!(!header_fits_check(&[0u8; 29]));
    // The top row starts 8 bytes in; its second pixel ends at byte 54 + 11.
    let file = header(2, 2, 24, &[0; 13]);
    assert!(!pixels_fit_check(file.len(), 54, 2, 2, 24));
    assert!(pixels_fit_check(file.len() + 1, 54, 2, 2, 24));
    // An empty image reads nothing.
    assert!(pixels_fit_check(0, 54, 0, 5, 24));
}

#[test]
fn defaults_are_empty() {
    let b = BMP::default();
    assert_eq!(b.size, 0);
    assert!(b.handle.is_none());
    let r = Raw::default();
    assert_eq!(r.size, 0);
    assert!(r.handle.is_none());
}

fn engine_file(width: u32, height: u32, image_size: u32, header_size: u32, pixels: &[u8]) -> Vec<u8> {
    let mut file = vec![0u8; 54];
    file[0] = 0x42;
    file[1] = 0x4D;
    put_u32(&mut file, 10, 54);
    put_u32(&mut file, 14, header_size);
    put_u32(&mut file, 18, width);
    put_u32(&mut file, 22, height);
    put_u32(&mut file, 0x22, image_size);
    file.extend_from_slice(pixels);
    file
}

#[test]
fn engine_bmp_refuses_bad_magic() {
    let mut file = engine_file(2, 1, 8, 40, &[0; 8]);
    file[0] = b'X';
    let mut bmp = engine_assets::BMP::default();
    assert!(engine_assets::header_fits_check(&file));
    assert_eq!(bmp.load_header(&file), Err("File magic does not match BMP format."));
    assert_eq!(bmp.size, 0);
}

#[test]
fn engine_bmp_refuses_large_header() {
    let file = engine_file(2, 1, 8, 124, &[0; 8]);
    let mut bmp = engine_assets::BMP::default();
    assert_eq!(
        bmp.load_header(&file),
        Err("Unsupported BMP type, header is larger than 40 bytes")
    );
}

#[test]
fn engine_bmp_copies_three_bytes_per_pixel() {
    let file = engine_file(2, 1, 8, 40, &[1, 2, 3, 4, 5, 6, 7, 8, 9]);
    let mut bmp = engine_assets::BMP::default();
    assert!(engine_assets::header_fits_check(&file));
    assert_eq!(bmp.load_header(&file), Ok(()));
    assert_eq!(bmp.bih.width, 2);
    assert_eq!(bmp.bih.height, 1);
    // Padding 2 per row, (8 - 2) / 3 = 2 pixels, four bytes each.
    assert_eq!(bmp.size, 8);
    assert!(engine_assets::pixels_fit_check(file.len(), bmp.offset, bmp.bih.width, bmp.size / 4));
    bmp.load_pixels(&file);
    // The second pixel is read after skipping the padding: from 1 + 2 = 3.
    assert_eq!(bmp.handle.unwrap(), vec![1, 2, 3, 0xFF, 4, 5, 6, 0xFF]);
}

#[test]
fn engine_bmp_pixel_check_needs_bytes_and_width() {
    assert!(!engine_assets::pixels_fit_check(100, 54, 0, 2));
    assert!(engine_assets::pixels_fit_check(60, 54, 2, 2));
    assert!(!engine_assets::pixels_fit_check(59, 54, 2, 2));
    assert!(!engine_assets::header_fits_check(&[0x42]));
}
