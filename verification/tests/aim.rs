use p3_lib::aim::{
    aim_is_decodable, decode_aim_file, get_pixel_encoding, pixel_buffer_len, rgba_from_bgra, str_to_latin1, P3AimError, ParsedAimFile,
    PixelEncoding, RawAimFile,
};

fn raw(encoding: u32, width1: u32, width2: u32, height: u32, buf: Vec<u8>, palette: Option<Vec<u32>>) -> RawAimFile {
    RawAimFile {
        buf: Some(buf),
        palette,
        width1,
        width2,
        height,
        pixel_encoding: encoding,
        ..RawAimFile::default()
    }
}

#[test]
fn default_raw_file_is_empty() {
    let r = RawAimFile::default();
    assert!(r.buf.is_none() && r.palette.is_none());
    assert_eq!((r.width1, r.width2, r.height, r.pixel_encoding, r.inner_ptr), (0, 0, 0, 0, 0));
}

#[test]
fn pixel_encodings_by_code() {
    let mut r = RawAimFile::default();
    for (code, expected) in [
        (0, PixelEncoding::Compact),
        (1, PixelEncoding::Palette),
        (3, PixelEncoding::NoAlpha),
        (4, PixelEncoding::Simple),
    ] {
        r.pixel_encoding = code;
        assert_eq!(get_pixel_encoding(&r).unwrap(), expected);
    }
    r.pixel_encoding = 2;
    assert!(matches!(get_pixel_encoding(&r), Err(P3AimError::UnknownPixelEncoding(2))));
}

#[test]
fn missing_buffer_fails_to_parse() {
    let r = RawAimFile::default();
    assert!(matches!(decode_aim_file(&r), Err(P3AimError::ParsingFailed)));
}

#[test]
fn unknown_encoding_is_reported() {
    let r = raw(7, 1, 1, 1, vec![0], None);
    assert!(matches!(decode_aim_file(&r), Err(P3AimError::UnknownPixelEncoding(7))));
}

#[test]
fn compact_decodes_one_row_more_than_the_height() {
    // 0b1111_1011: a = 3 << 6, r = 3 << 4, g = 3 << 2, b = 3.
    let r = raw(0, 2, 0, 1, vec![0b1111_1011, 0x00, 0b0010_0001, 0xff], None);
    let p = decode_aim_file(&r).unwrap();
    assert_eq!((p.width, p.height), (2, 1));
    assert_eq!(
        p.data,
        vec![3, 12, 48, 192, 0, 0, 0, 0, 1, 4, 0, 64, 3, 12, 48, 192]
    );
}

#[test]
fn palette_pads_rows_to_the_second_width() {
    let palette: Vec<u32> = (0..256).map(|i| 0x01020300 + i).collect();
    // One row of width1 = 2 indices, padded to width2 = 3.
    let r = raw(1, 2, 3, 2, vec![5, 7, 0, 1, 2, 0], Some(palette));
    let p = decode_aim_file(&r).unwrap();
    assert_eq!((p.width, p.height), (3, 2));
    assert_eq!(
        p.data,
        vec![5, 3, 2, 1, 7, 3, 2, 1, 0xff, 0x00, 0xff, 0xff, 1, 3, 2, 1, 2, 3, 2, 1, 0xff, 0x00, 0xff, 0xff]
    );
}

#[test]
fn palette_with_narrower_second_width_keeps_width2() {
    let palette = vec![0xaabbccddu32, 0x11223344];
    let r = raw(1, 2, 1, 1, vec![1, 0], Some(palette));
    let p = decode_aim_file(&r).unwrap();
    assert_eq!((p.width, p.height), (1, 1));
    assert_eq!(p.data, vec![0x44, 0x33, 0x22, 0x11, 0xdd, 0xcc, 0xbb, 0xaa]);
}

#[test]
fn no_alpha_swaps_to_bgr_and_adds_opacity() {
    let r = raw(3, 2, 6, 1, vec![1, 2, 3, 4, 5, 6], None);
    let p = decode_aim_file(&r).unwrap();
    assert_eq!((p.width, p.height), (2, 1));
    assert_eq!(p.data, vec![3, 2, 1, 0xff, 6, 5, 4, 0xff]);
}

#[test]
fn simple_copies_four_bytes_per_pixel() {
    let r = raw(4, 1, 4, 2, vec![1, 2, 3, 4, 5, 6, 7, 8, 9], None);
    let p = decode_aim_file(&r).unwrap();
    assert_eq!((p.width, p.height), (1, 2));
    assert_eq!(p.data, vec![1, 2, 3, 4, 5, 6, 7, 8]);
}

#[test]
fn pixel_buffer_lengths() {
    assert_eq!(pixel_buffer_len(3, 0, 2, 0), Some(9));
    assert_eq!(pixel_buffer_len(2, 5, 3, 1), Some(15));
    assert_eq!(pixel_buffer_len(5, 2, 3, 1), Some(15));
    assert_eq!(pixel_buffer_len(2, 6, 3, 3), Some(18));
    assert_eq!(pixel_buffer_len(2, 8, 3, 4), Some(24));
    assert_eq!(pixel_buffer_len(2, 8, 3, 2), None);
}

#[test]
fn rgba_swaps_red_and_blue() {
    let image = ParsedAimFile { data: vec![1, 2, 3, 4, 5, 6, 7, 8, 9], width: 2, height: 1 };
    assert_eq!(rgba_from_bgra(&image), vec![3, 2, 1, 4, 7, 6, 5, 8]);
}

#[test]
fn decoded_image_is_large_enough_for_a_bitmap() {
    let r = raw(0, 2, 0, 1, vec![1, 2, 3, 4], None);
    let p = decode_aim_file(&r).unwrap();
    assert!(p.data.len() >= 4 * (p.width * p.height) as usize);
    assert_eq!(rgba_from_bgra(&p).len(), 8);
}

#[test]
fn file_names_become_nul_terminated_latin1() {
    assert_eq!(str_to_latin1("a.aim"), vec![b'a', b'.', b'a', b'i', b'm', 0]);
    assert_eq!(str_to_latin1("\u{e9}"), vec![0xe9, 0]);
    assert_eq!(str_to_latin1(""), vec![0]);
}

#[test]
fn latin1_text_round_trips_through_aim_file_names() {
    let bytes = vec![0x41u8, 0xe4, 0x7a];
    let text = p3_lib::cpr::latin1_to_string(&bytes);
    let mut expected = bytes.clone();
    expected.push(0);
    assert_eq!(str_to_latin1(&text), expected);
}

#[test]
fn decodable_images() {
    assert!(aim_is_decodable(&RawAimFile::default()));
    assert!(aim_is_decodable(&raw(7, 1, 1, 1, vec![], None)));
    assert!(aim_is_decodable(&raw(0, 2, 0, 1, vec![0; 4], None)));
    assert!(aim_is_decodable(&raw(1, 2, 3, 2, vec![0, 1, 9, 1, 0, 9], Some(vec![1, 2]))));
    assert!(aim_is_decodable(&raw(3, 1, 3, 2, vec![0; 6], None)));
    assert!(aim_is_decodable(&raw(4, 1, 4, 2, vec![0; 8], None)));
}

#[test]
fn undecodable_images() {
    // compact with a palette, or a buffer too short for the extra row
    assert!(!aim_is_decodable(&raw(0, 2, 0, 1, vec![0; 4], Some(vec![0]))));
    assert!(!aim_is_decodable(&raw(0, 2, 0, 1, vec![0; 3], None)));
    // palette missing, or an index beyond it in a pixel that is read
    assert!(!aim_is_decodable(&raw(1, 2, 3, 2, vec![0; 6], None)));
    assert!(!aim_is_decodable(&raw(1, 2, 3, 2, vec![0, 2, 0, 0, 0, 0], Some(vec![1, 2]))));
    // widths that do not match the encoding
    assert!(!aim_is_decodable(&raw(3, 1, 4, 2, vec![0; 6], None)));
    assert!(!aim_is_decodable(&raw(4, 1, 3, 2, vec![0; 8], None)));
    // a height whose extra row overflows
    assert!(!aim_is_decodable(&raw(0, 1, 0, u32::MAX, vec![], None)));
}
