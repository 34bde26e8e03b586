use png_indexed::{ConstructionError, EncodeFailure, PngIndexed};

/// Decodes an encoded stream and returns the palette and the packed
/// 1-bit-per-pixel image data (rows of `ceil(width / 8)` bytes each).
fn decode(bytes: &[u8]) -> (Vec<u8>, Vec<u8>, u32, u32) {
    let decoder = png::Decoder::new(bytes);
    let mut reader = decoder.read_info().expect("valid stream");
    let mut buf = vec![0u8; reader.output_buffer_size()];
    let info = reader.next_frame(&mut buf).expect("valid image data");
    assert_eq!(info.bit_depth, png::BitDepth::One);
    assert_eq!(info.color_type, png::ColorType::Indexed);
    let palette = reader
        .info()
        .palette
        .as_ref()
        .expect("palette present")
        .to_vec();
    buf.truncate(info.buffer_size());
    (palette, buf, info.width, info.height)
}

/// The decoded palette index at (x, y) in packed 1-bit rows.
fn decoded_pixel(data: &[u8], width: u32, x: u32, y: u32) -> u8 {
    let row_bytes = ((width + 7) / 8) as usize;
    let byte = data[y as usize * row_bytes + (x / 8) as usize];
    (byte >> (7 - (x % 8))) & 1
}

#[test]
fn stride_is_width_rounded_up_to_multiple_of_8() {
    for (width, expected) in [(1u32, 8u32), (7, 8), (8, 8), (9, 16), (16, 16), (17, 24)] {
        let buf = PngIndexed::new(width, 3).unwrap();
        assert_eq!(buf.stride(), expected);
        assert!(buf.stride() >= width);
        assert_eq!(buf.width(), width);
        assert_eq!(buf.height(), 3);
    }
}

#[test]
fn zero_dimensions_are_rejected() {
    assert_eq!(
        PngIndexed::new(0, 5).err().unwrap(),
        ConstructionError::ZeroDimension
    );
    assert_eq!(
        PngIndexed::new(5, 0).err().unwrap(),
        ConstructionError::ZeroDimension
    );
    assert_eq!(
        PngIndexed::new(0, 0).err().unwrap(),
        ConstructionError::ZeroDimension
    );
}

#[test]
fn oversized_dimensions_are_rejected() {
    assert_eq!(
        PngIndexed::new(u32::MAX - 100, u32::MAX).err().unwrap(),
        ConstructionError::TooLarge
    );
}

#[test]
fn set_pixel_boundary() {
    let mut buf = PngIndexed::new(4, 3).unwrap();
    assert!(buf.put_pixel(3, 2, 1).is_ok());
    let before = buf.raw_bytes();
    assert!(buf.put_pixel(4, 0, 1).is_err());
    assert!(buf.put_pixel(0, 3, 1).is_err());
    assert!(buf.put_pixel(4, 3, 1).is_err());
    assert_eq!(buf.raw_bytes(), before);
    assert_eq!(buf.width(), 4);
    assert_eq!(buf.height(), 3);
}

#[test]
fn set_pixel_twice_is_idempotent() {
    let mut once = PngIndexed::new(10, 4).unwrap();
    once.put_pixel(1, 1, 1).unwrap();
    let mut twice = PngIndexed::new(10, 4).unwrap();
    twice.put_pixel(1, 1, 1).unwrap();
    twice.put_pixel(1, 1, 1).unwrap();
    assert_eq!(once.raw_bytes(), twice.raw_bytes());
    assert_eq!(once.to_png().unwrap(), twice.to_png().unwrap());
}

#[test]
fn fresh_buffer_decodes_to_all_background() {
    let buf = PngIndexed::new(5, 3).unwrap();
    let encoded = buf.to_png().unwrap();
    let (palette, data, width, height) = decode(&encoded);
    assert_eq!(palette, vec![255, 255, 255, 0, 0, 0]);
    assert_eq!((width, height), (5, 3));
    for y in 0..3 {
        for x in 0..5 {
            assert_eq!(decoded_pixel(&data, 5, x, y), 0);
        }
    }
}

#[test]
fn set_pixel_round_trips_through_decoder() {
    let mut buf = PngIndexed::new(5, 4).unwrap();
    buf.put_pixel(2, 1, 7).unwrap();
    let encoded = buf.to_png().unwrap();
    let (_, data, width, height) = decode(&encoded);
    assert_eq!((width, height), (5, 4));
    for y in 0..4 {
        for x in 0..5 {
            let expected = if (x, y) == (2, 1) { 1 } else { 0 };
            assert_eq!(decoded_pixel(&data, 5, x, y), expected);
        }
    }
}

#[test]
fn it_works() {
    let width = 2;
    let height = 2;
    let mut png = PngIndexed::new(width, height).unwrap();
    png.put_pixel(0, 0, 1).unwrap();
    png.put_pixel(1, 1, 1).unwrap();
    let res = png.to_png().unwrap();
    assert!(!res.is_empty());
}

#[test]
fn two_by_two_diagonal_scenario() {
    let mut buf = PngIndexed::new(2, 2).unwrap();
    buf.put_pixel(0, 0, 1).unwrap();
    buf.put_pixel(1, 1, 1).unwrap();
    let encoded = buf.to_png().unwrap();
    let (palette, data, width, height) = decode(&encoded);
    assert_eq!((width, height), (2, 2));
    // Index 0 is white, index 1 is black.
    assert_eq!(&palette[0..3], &[255, 255, 255]);
    assert_eq!(&palette[3..6], &[0, 0, 0]);
    assert_eq!(decoded_pixel(&data, 2, 0, 0), 1);
    assert_eq!(decoded_pixel(&data, 2, 1, 1), 1);
    assert_eq!(decoded_pixel(&data, 2, 1, 0), 0);
    assert_eq!(decoded_pixel(&data, 2, 0, 1), 0);
}

#[test]
fn nine_wide_scenario_pads_to_two_bytes() {
    let mut buf = PngIndexed::new(9, 1).unwrap();
    assert_eq!(buf.stride(), 16);
    buf.put_pixel(8, 0, 1).unwrap();
    assert_eq!(buf.raw_bytes(), vec![0x00, 0x80]);
    let encoded = buf.to_png().unwrap();
    let (_, data, width, height) = decode(&encoded);
    assert_eq!((width, height), (9, 1));
    assert_eq!(data, vec![0x00, 0x80]);
}

#[test]
fn multi_megabyte_buffer_encodes() {
    let width = 4096;
    let height = 4096;
    let mut buf = PngIndexed::new(width, height).unwrap();
    for i in 0..height {
        buf.put_pixel(i % width, i, 1).unwrap();
    }
    assert_eq!(buf.raw_bytes().len(), (4096 / 8) * 4096);
    let encoded = buf.to_png().unwrap();
    // Signature, IHDR, PLTE, at least one IDAT and IEND all have fixed
    // per-chunk overhead; the stream must hold more than that and less than
    // the uncompressed data plus overhead.
    assert!(encoded.len() > 8 + 12 + 12 + 12 + 12);
    assert!(encoded.len() < (4096 / 8) * 4096 + 4096 + 1024);
    let (_, data, w, h) = decode(&encoded);
    assert_eq!((w, h), (width, height));
    assert_eq!(decoded_pixel(&data, width, 0, 0), 1);
    assert_eq!(decoded_pixel(&data, width, 1, 0), 0);
    assert_eq!(decoded_pixel(&data, width, 1, 1), 1);
}

#[test]
fn encode_entry_point_matches_buffer_path() {
    let writes = vec![(0u32, 0u32, 1u8), (1, 1, 1)];
    let via_entry = png_indexed::encoder::encode(2, 2, &writes).unwrap();
    let mut buf = PngIndexed::new(2, 2).unwrap();
    buf.put_pixel(0, 0, 1).unwrap();
    buf.put_pixel(1, 1, 1).unwrap();
    assert_eq!(via_entry, buf.to_png().unwrap());
}

#[test]
fn encode_entry_point_rejects_bad_requests() {
    let out_of_range = vec![(2u32, 0u32, 1u8)];
    assert!(matches!(
        png_indexed::encoder::encode(2, 2, &out_of_range).unwrap_err(),
        EncodeFailure::OutOfBounds(_)
    ));
    let empty: Vec<(u32, u32, u8)> = Vec::new();
    assert!(matches!(
        png_indexed::encoder::encode(0, 2, &empty).unwrap_err(),
        EncodeFailure::Construction(ConstructionError::ZeroDimension)
    ));
}
