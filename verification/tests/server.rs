use p3_lib::server::{agent_tick_due, hex_text_sliceable, operation_line_is_sliceable, decode_hex, parse_operation_line, ClientConnectionError, OPERATION_LINE_LEN};

#[test]
fn decode_hex_reads_pairs_of_digits() {
    assert_eq!(decode_hex("0aff").unwrap(), vec![10, 255]);
    assert_eq!(decode_hex("00A1b2").unwrap(), vec![0, 0xa1, 0xb2]);
    assert_eq!(decode_hex("").unwrap(), Vec::<u8>::new());
}

#[test]
fn decode_hex_accepts_a_plus_sign() {
    assert_eq!(decode_hex("+f").unwrap(), vec![15]);
}

#[test]
fn decode_hex_rejects_non_hex_text() {
    assert!(decode_hex("zz").is_err());
    assert!(decode_hex("0g").is_err());
    assert!(decode_hex("-1").is_err());
    assert!(decode_hex("00zz").is_err());
}

#[test]
fn empty_read_means_disconnected() {
    assert!(matches!(parse_operation_line("", 0), Err(ClientConnectionError::ClientDisconnected)));
}

#[test]
fn wrong_length_line_is_invalid() {
    assert!(matches!(parse_operation_line("0a0b\n", 5), Err(ClientConnectionError::InvalidOperation)));
}

#[test]
fn operation_line_decodes_its_forty_characters() {
    let line = format!("{}\n", "01".repeat(20));
    assert_eq!(line.len(), OPERATION_LINE_LEN);
    let op = parse_operation_line(&line, line.len()).unwrap();
    assert_eq!(op, vec![1u8; 20]);
}

#[test]
fn operation_line_with_bad_digits_is_invalid() {
    let line = format!("{}zz\n", "01".repeat(19));
    assert!(matches!(parse_operation_line(&line, 41), Err(ClientConnectionError::InvalidOperation)));
}

#[test]
fn agent_ticks_once_every_sixteen_game_ticks() {
    assert!(agent_tick_due(15));
    assert!(agent_tick_due(31));
    assert!(agent_tick_due(0xffff_ffff));
    assert!(!agent_tick_due(0));
    assert!(!agent_tick_due(16));
    assert!(!agent_tick_due(14));
}

#[test]
fn hex_text_cut_points() {
    assert!(hex_text_sliceable("0aff"));
    assert!(hex_text_sliceable(""));
    assert!(!hex_text_sliceable("0a0"));
    assert!(hex_text_sliceable("zz0"));
    assert!(hex_text_sliceable("\u{e9}\u{e9}"));
    assert!(!hex_text_sliceable("a\u{e9}"));
    assert!(!hex_text_sliceable("0a\u{20ac}"));
}

#[test]
fn operation_line_cut_points() {
    let line = format!("{}\n", "01".repeat(20));
    assert!(operation_line_is_sliceable(&line));
    assert!(!operation_line_is_sliceable("0a\n"));
    let line = format!("{}a\u{e9}\n", "01".repeat(19));
    assert!(!operation_line_is_sliceable(&line));
}

#[test]
fn decode_hex_reads_back_both_cases_of_encoding() {
    let bytes: Vec<u8> = vec![0x00, 0x0a, 0x7f, 0xab, 0xff];
    let lower: String = bytes.iter().map(|b| format!("{:02x}", b)).collect();
    let upper: String = bytes.iter().map(|b| format!("{:02X}", b)).collect();
    assert_eq!(decode_hex(&lower).unwrap(), bytes);
    assert_eq!(decode_hex(&upper).unwrap(), bytes);
}
