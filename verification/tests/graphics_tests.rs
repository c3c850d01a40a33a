//! Pixel-format conversions: bit unpacking, the round trip back to
//! packed bytes, rotation, flipping and scaling.
use thermal_decoder::graphics::{
    bitpacked_to_grayscale, column_to_raster, flip_right_to_left, rotate_90_clockwise,
    scale_pixels, Image, ImageFlow, ImageRef, ImageRefStorage, PixelType,
};

#[test]
fn grayscale_length_is_width_times_height() {
    // 3 rows of 12 pixels: two bytes per row, the second half-used.
    let packed = vec![0xFFu8, 0xF0, 0x00, 0x00, 0xAA, 0xA0];
    let gray = bitpacked_to_grayscale(&packed, 12);
    assert_eq!(gray.len(), 36);
    // set bits print black (0), clear bits stay white (255)
    assert!(gray[0..12].iter().all(|p| *p == 0));
    assert!(gray[12..24].iter().all(|p| *p == 255));
}

#[test]
fn grayscale_round_trip_on_whole_bytes() {
    let packed = vec![0x5Au8, 0xC3, 0x81, 0x7E];
    let gray = bitpacked_to_grayscale(&packed, 16);
    assert_eq!(gray.len(), 32);
    // repack most-significant-bit first: black pixel means a set bit
    let mut repacked = Vec::new();
    for chunk in gray.chunks(8) {
        let mut byte = 0u8;
        for (i, px) in chunk.iter().enumerate() {
            if *px == 0 {
                byte |= 1 << (7 - i);
            }
        }
        repacked.push(byte);
    }
    assert_eq!(repacked, packed);
}

#[test]
fn grayscale_round_trip_on_ragged_width() {
    // width 12: each row is one full byte and one half-used byte whose
    // pad bits are clear; walking the rows back recovers the input
    let packed = vec![0xFFu8, 0xF0, 0xAA, 0xA0, 0x12, 0x30];
    let gray = bitpacked_to_grayscale(&packed, 12);
    assert_eq!(gray.len(), 36);
    let mut repacked = Vec::new();
    for row in gray.chunks(12) {
        for chunk in row.chunks(8) {
            let mut byte = 0u8;
            for (j, px) in chunk.iter().enumerate() {
                if *px == 0 {
                    byte |= 1 << (7 - j);
                }
            }
            repacked.push(byte);
        }
    }
    assert_eq!(repacked, packed);
}

#[test]
fn grayscale_narrow_width_drops_trailing_bits() {
    // width 1: each byte contributes exactly one pixel; the rest of the
    // byte cannot survive a round trip.
    let packed = vec![0xFFu8];
    let gray = bitpacked_to_grayscale(&packed, 1);
    assert_eq!(gray, vec![0]);
}

#[test]
fn rotate_then_flip_matches_by_hand() {
    // 2 rows by 3 columns, values 1..6:
    // 1 2 3
    // 4 5 6
    let data = vec![1u8, 2, 3, 4, 5, 6];
    let rot = rotate_90_clockwise(data.clone(), 3, 2);
    // clockwise: 3 rows by 2 columns
    // 4 1
    // 5 2
    // 6 3
    assert_eq!(rot, vec![4, 1, 5, 2, 6, 3]);
    let flip = flip_right_to_left(rot, 2, 3);
    assert_eq!(flip, vec![1, 4, 2, 5, 3, 6]);
}

#[test]
fn scale_pixels_doubles_each_axis() {
    let data = vec![1u8, 2, 3, 4];
    let (w, h, px) = scale_pixels(&data, 2, 2, true, true);
    assert_eq!((w, h), (4, 4));
    assert_eq!(
        px,
        vec![1, 1, 2, 2, 1, 1, 2, 2, 3, 3, 4, 4, 3, 3, 4, 4]
    );
    let (w1, h1, px1) = scale_pixels(&data, 2, 2, true, false);
    assert_eq!((w1, h1), (4, 2));
    assert_eq!(px1, vec![1, 1, 2, 2, 3, 3, 4, 4]);
}

#[test]
fn column_to_raster_single_column() {
    // one column of 8 dots, alternating
    let cols = vec![0xAAu8];
    let (w, h, px) = column_to_raster(&cols, (1, 1), 1, 8);
    assert_eq!((w, h), (1, 8));
    assert_eq!(px, vec![0, 255, 0, 255, 0, 255, 0, 255]);
}

#[test]
fn image_from_raster_data_reads_header() {
    let mut data = vec![48u8, 1, 1, 49, 2, 0, 1, 0];
    data.extend_from_slice(&[7, 8]);
    let img = Image::from_raster_data(&data).unwrap();
    assert_eq!(img.pixel_type, PixelType::Monochrome(49));
    assert_eq!((img.w, img.h), (2, 1));
    assert_eq!(img.stretch, (1, 1));
    assert_eq!(img.flow, ImageFlow::Block);
    assert_eq!(img.pixels, vec![7, 8]);
    assert!(Image::from_raster_data(&vec![1, 2, 3]).is_none());
}

#[test]
fn image_from_raster_data_scales_when_asked() {
    let mut data = vec![48u8, 2, 1, 49, 2, 0, 1, 0];
    data.extend_from_slice(&[7, 8]);
    let img = Image::from_raster_data(&data).unwrap();
    assert_eq!((img.w, img.h), (4, 1));
    assert_eq!(img.pixels, vec![7, 7, 8, 8]);
}

#[test]
fn image_with_ref_reads_key_and_pixels() {
    let mut data = vec![48u8, 65, 66, 1, 8, 0, 1, 0, 49];
    data.push(0xF0);
    let (key, img) = Image::from_raster_data_with_ref(&data, ImageRefStorage::Ram).unwrap();
    assert_eq!((key.kc1, key.kc2), (65, 66));
    assert_eq!(key.storage, ImageRefStorage::Ram);
    assert_eq!((img.w, img.h), (8, 1));
    assert_eq!(img.pixels, vec![0xF0]);
}

#[test]
fn image_ref_from_data_needs_two_bytes() {
    assert!(ImageRef::from_data(&vec![1], ImageRefStorage::Disc).is_none());
    let r = ImageRef::from_data(&vec![3, 4, 5], ImageRefStorage::Disc).unwrap();
    assert_eq!((r.kc1, r.kc2), (3, 4));
}

#[test]
fn pbm_header_and_payload() {
    let img = Image {
        pixels: vec![0xF0, 0x0F],
        x: 0,
        y: 0,
        w: 16,
        h: 1,
        pixel_type: PixelType::Monochrome(1),
        stretch: (1, 1),
        flow: ImageFlow::Off,
        upside_down: false,
    };
    let pbm = img.as_pbm();
    assert_eq!(&pbm[0..3], &[0x50, 0x34, 0x0A]);
    assert_eq!(&pbm[3..7], b"16 1");
    assert_eq!(&pbm[7..], &[0xF0, 0x0F]);
}

#[test]
fn as_grayscale_passes_byte_pixels_through() {
    let img = Image {
        pixels: vec![9, 8, 7],
        x: 0,
        y: 0,
        w: 3,
        h: 1,
        pixel_type: PixelType::MonochromeByte,
        stretch: (1, 1),
        flow: ImageFlow::Off,
        upside_down: false,
    };
    assert_eq!(img.as_grayscale(), vec![9, 8, 7]);
}
