use p3_lib::cpr::{
    latin1_to_string, read_cpr_chunk, read_cpr_chunk_header, read_cpr_entry_data, read_cpr_index_entry,
    read_latin1_str, CprChunkHeader, CprCliError, CprIndexEntry, CPR_FIRST_CHUNK_POS,
};

fn push_u32(buf: &mut Vec<u8>, v: u32) {
    buf.extend_from_slice(&v.to_le_bytes());
}

/// An archive with one chunk holding two files.
fn archive() -> Vec<u8> {
    let mut buf = vec![0u8; 0x20];
    let names: [&[u8]; 2] = [b"dir\\first.txt", b"second.bin"];
    let contents: [&[u8]; 2] = [b"hello", b"\x01\x02\x03"];
    let index_size = 16 + names.iter().map(|n| 12 + n.len() as u32 + 1).sum::<u32>();
    let data_size = contents.iter().map(|c| c.len() as u32).sum::<u32>();
    push_u32(&mut buf, index_size);
    push_u32(&mut buf, 0xdead);
    push_u32(&mut buf, 2);
    push_u32(&mut buf, data_size);
    let mut offset = 0x20 + index_size;
    for (name, content) in names.iter().zip(contents.iter()) {
        push_u32(&mut buf, offset);
        push_u32(&mut buf, content.len() as u32);
        push_u32(&mut buf, 7);
        buf.extend_from_slice(name);
        buf.push(0);
        offset += content.len() as u32;
    }
    for content in contents.iter() {
        buf.extend_from_slice(content);
    }
    buf
}

fn is_eof(e: &CprCliError) -> bool {
    match e {
        CprCliError::IoError(io) => io.kind() == std::io::ErrorKind::UnexpectedEof,
    }
}

#[test]
fn read_chunk_reads_header_and_entries() {
    let data = archive();
    let chunk = read_cpr_chunk(&data, CPR_FIRST_CHUNK_POS).unwrap().unwrap();
    assert_eq!(chunk.header.files, 2);
    assert_eq!(chunk.header._unknown, 0xdead);
    assert_eq!(chunk.header.data_size, 8);
    assert_eq!(chunk.header.index_size, 16 + 12 + 14 + 12 + 11);
    assert_eq!(chunk.entries.len(), 2);
    assert_eq!(chunk.entries[0].file_path, "dir\\first.txt");
    assert_eq!(chunk.entries[1].file_path, "second.bin");
    assert_eq!(chunk.entries[1]._unknown, 7);
    assert_eq!(read_cpr_entry_data(&data, &chunk.entries[0]).unwrap(), b"hello".to_vec());
    assert_eq!(read_cpr_entry_data(&data, &chunk.entries[1]).unwrap(), vec![1, 2, 3]);
    let next = CPR_FIRST_CHUNK_POS + chunk.header.chunk_len() as u64;
    assert_eq!(next, data.len() as u64);
    assert!(read_cpr_chunk(&data, next).unwrap().is_none());
}

#[test]
fn read_chunk_at_or_past_the_end_is_none() {
    assert!(read_cpr_chunk(&[0u8; 0x20], CPR_FIRST_CHUNK_POS).unwrap().is_none());
    assert!(read_cpr_chunk(&[0u8; 4], CPR_FIRST_CHUNK_POS).unwrap().is_none());
}

#[test]
fn truncated_header_is_an_eof_error() {
    let mut data = vec![0u8; 0x20];
    data.extend_from_slice(&[1, 0, 0, 0, 2, 0, 0]);
    let err = read_cpr_chunk(&data, CPR_FIRST_CHUNK_POS).unwrap_err();
    assert!(is_eof(&err));
    assert!(read_cpr_chunk_header(&data, 0x20).is_err());
}

#[test]
fn truncated_index_is_an_eof_error() {
    let mut data = archive();
    data.truncate(0x20 + 16 + 12 + 5);
    // The first entry's path runs to the end; the second entry is missing.
    let err = read_cpr_chunk(&data, CPR_FIRST_CHUNK_POS).unwrap_err();
    assert!(is_eof(&err));
}

#[test]
fn chunk_header_fields_are_little_endian() {
    let data = [1u8, 0, 0, 0, 0, 1, 0, 0, 0, 0, 1, 0, 0, 0, 0, 1];
    let h: CprChunkHeader = read_cpr_chunk_header(&data, 0).unwrap();
    assert_eq!((h.index_size, h._unknown, h.files, h.data_size), (1, 0x100, 0x10000, 0x1000000));
    assert_eq!(h.chunk_len(), 0x1000001);
}

#[test]
fn index_entry_reads_numbers_and_path() {
    let mut data = vec![];
    push_u32(&mut data, 0x11223344);
    push_u32(&mut data, 5);
    push_u32(&mut data, 9);
    data.extend_from_slice(b"x\0rest");
    let (entry, next) = read_cpr_index_entry(&data, 0).unwrap();
    assert_eq!((entry.offset, entry.size, entry._unknown), (0x11223344, 5, 9));
    assert_eq!(entry.file_path, "x");
    assert_eq!(next, 14);
    assert!(read_cpr_index_entry(&data[..11], 0).is_err());
}

#[test]
fn entry_data_out_of_range_is_an_eof_error() {
    let data = vec![1u8, 2, 3, 4];
    let entry = CprIndexEntry { offset: 2, size: 3, _unknown: 0, file_path: String::new() };
    assert!(is_eof(&read_cpr_entry_data(&data, &entry).unwrap_err()));
    let past = CprIndexEntry { offset: 100, size: 1, _unknown: 0, file_path: String::new() };
    assert!(read_cpr_entry_data(&data, &past).is_err());
    let empty_past = CprIndexEntry { offset: 100, size: 0, _unknown: 0, file_path: String::new() };
    assert_eq!(read_cpr_entry_data(&data, &empty_past).unwrap(), Vec::<u8>::new());
    let exact = CprIndexEntry { offset: 1, size: 3, _unknown: 0, file_path: String::new() };
    assert_eq!(read_cpr_entry_data(&data, &exact).unwrap(), vec![2, 3, 4]);
}

#[test]
fn latin1_string_field_rules() {
    assert_eq!(read_latin1_str(b"ab\0cd", 0), ("ab".to_string(), 3));
    assert_eq!(read_latin1_str(b"ab\0cd", 3), ("c".to_string(), 5));
    assert_eq!(read_latin1_str(b"ab\0cd", 5), (String::new(), 5));
    assert_eq!(read_latin1_str(b"\0", 0), (String::new(), 1));
    assert_eq!(read_latin1_str(&[0xe9, 0x41, 0], 0), ("\u{e9}A".to_string(), 3));
}

#[test]
fn latin1_to_string_maps_bytes_to_code_points() {
    assert_eq!(latin1_to_string(&[0x48, 0x69, 0xfc, 0xff]), "Hi\u{fc}\u{ff}");
    assert_eq!(latin1_to_string(&[]), "");
}
