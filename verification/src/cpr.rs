//! Reading CPR archives: a 0x20-byte file header, then chunks of an index
//! (header plus file entries) followed by file data.
use std::io::Read;

use byteorder::{LittleEndian, ReadBytesExt};
use vstd::prelude::*;

use crate::bytes::u32_le;

verus! {

#[verifier::external_type_specification]
#[verifier::external_body]
pub struct ExIoError(std::io::Error);

/// Errors while extracting an archive.
#[derive(Debug)]
pub enum CprCliError {
    IoError(std::io::Error),
}

/// The header of one archive chunk.
#[derive(Clone, Debug)]
pub struct CprChunkHeader {
    pub index_size: u32,
    pub _unknown: u32,
    pub files: u32,
    pub data_size: u32,
}

/// One file entry of a chunk's index.
#[derive(Clone, Debug)]
pub struct CprIndexEntry {
    pub offset: u32,
    pub size: u32,
    pub _unknown: u32,
    pub file_path: String,
}

/// A chunk's header and its index entries.
#[derive(Debug)]
pub struct CprChunk {
    pub header: CprChunkHeader,
    pub entries: Vec<CprIndexEntry>,
}

/// The position of the first chunk in an archive.
pub const CPR_FIRST_CHUNK_POS: u64 = 0x20;

/// The little-endian `u32` at `pos` in `data`.
pub open spec fn u32_at(data: Seq<u8>, pos: int) -> int {
    u32_le(data[pos], data[pos + 1], data[pos + 2], data[pos + 3])
}

/// The characters that Latin-1 gives to `bytes`: each byte is the code point.
pub open spec fn latin1_chars(bytes: Seq<u8>) -> Seq<char> {
    bytes.map_values(|b: u8| b as char)
}

/// The position of the first NUL byte at or after `pos`, or `data.len()` if none.
pub open spec fn nul_position(data: Seq<u8>, pos: int) -> int
    decreases data.len() - pos,
{
    if pos >= data.len() {
        data.len() as int
    } else if data[pos] == 0 {
        pos
    } else {
        nul_position(data, pos + 1)
    }
}

/// The bytes of the string field at `pos`: up to the next NUL; at the end of the
/// data without a NUL, all remaining bytes but the last.
pub open spec fn string_field(data: Seq<u8>, pos: int) -> Seq<u8> {
    let end = nul_position(data, pos);
    if end < data.len() {
        data.subrange(pos, end)
    } else if pos < data.len() {
        data.subrange(pos, data.len() - 1)
    } else {
        Seq::empty()
    }
}

/// The position after the string field at `pos`.
pub open spec fn string_field_end(data: Seq<u8>, pos: int) -> int {
    let end = nul_position(data, pos);
    if end < data.len() {
        end + 1
    } else {
        data.len() as int
    }
}

/// An index entry as plain values: offset, size, unknown field and path.
pub type EntryView = (u32, u32, u32, Seq<char>);

/// The entry at `pos`, if its three numbers fit in `data`, with the position
/// after it.
pub open spec fn entry_at(data: Seq<u8>, pos: int) -> Option<(EntryView, int)> {
    if pos + 12 <= data.len() {
        Some(
            (
                (
                    u32_at(data, pos) as u32,
                    u32_at(data, pos + 4) as u32,
                    u32_at(data, pos + 8) as u32,
                    latin1_chars(string_field(data, pos + 12)),
                ),
                string_field_end(data, pos + 12),
            ),
        )
    } else {
        None
    }
}

/// The `n` consecutive entries starting at `pos`, or `None` if the data ends
/// inside one of them.
pub open spec fn entries_at(data: Seq<u8>, pos: int, n: nat) -> Option<Seq<EntryView>>
    decreases n,
{
    if n == 0 {
        Some(Seq::empty())
    } else {
        match entry_at(data, pos) {
            None => None,
            Some((e, next)) => match entries_at(data, next, (n - 1) as nat) {
                None => None,
                Some(rest) => Some(seq![e] + rest),
            },
        }
    }
}

impl CprIndexEntry {
    pub open spec fn view_entry(&self) -> EntryView {
        (self.offset, self.size, self._unknown, self.file_path@)
    }
}

/// byteorder's `ReadBytesExt::read_u32::<LittleEndian>` on a byte slice: it
/// reads the first four bytes as a little-endian `u32`, and fails (with
/// `UnexpectedEof`) when fewer than four are there.
#[verifier::external_body]
fn read_u32_le(bytes: &[u8]) -> (res: Result<u32, std::io::Error>)
    ensures
        res is Ok <==> bytes@.len() >= 4,
        res matches Ok(v) ==> v as int == u32_at(bytes@, 0),
{
    let mut reader = bytes;
    reader.read_u32::<LittleEndian>()
}

/// std's `Read::read_exact` on a byte slice into a fresh buffer of `n` bytes: it
/// succeeds exactly when the slice holds at least `n` bytes, and then the buffer
/// holds the first `n` of them.
#[verifier::external_body]
fn read_exact_vec(bytes: &[u8], n: usize) -> (res: Result<Vec<u8>, std::io::Error>)
    ensures
        res is Ok <==> n <= bytes@.len(),
        res matches Ok(v) ==> v@ == bytes@.take(n as int),
{
    let mut buf = vec![0u8; n];
    let mut reader = bytes;
    reader.read_exact(&mut buf)?;
    Ok(buf)
}

/// std's `String::push`: appends one character.
#[verifier::external_body]
fn push_char(s: &mut String, c: char)
    ensures
        final(s)@ == old(s)@.push(c),
{
    s.push(c)
}

/// Reads the little-endian `u32` at `pos`.
fn read_u32_at(data: &[u8], pos: usize) -> (res: Result<u32, CprCliError>)
    ensures
        res is Ok <==> pos + 4 <= data@.len(),
        res matches Ok(v) ==> v as int == u32_at(data@, pos as int),
{
    let start = if pos <= data.len() { pos } else { data.len() };
    let rest = vstd::slice::slice_subrange(data, start, data.len());
    match read_u32_le(rest) {
        Ok(v) => Ok(v),
        Err(e) => Err(CprCliError::IoError(e)),
    }
}

/// Converts Latin-1 bytes to a string, each byte giving the character with the
/// same code point.
pub fn latin1_to_string(s: &[u8]) -> (res: String)
    ensures
        res@ == latin1_chars(s@),
{
    let mut res = String::new();
    let mut i: usize = 0;
    while i < s.len()
        invariant
            i <= s@.len(),
            res@ == latin1_chars(s@.take(i as int)),
        decreases s@.len() - i,
    {
        push_char(&mut res, s[i] as char);
        assert(latin1_chars(s@.take(i + 1)) =~= latin1_chars(s@.take(i as int)).push(s@[i as int] as char));
        i += 1;
    }
    assert(s@.take(s@.len() as int) =~= s@);
    res
}

/// Reads the NUL-terminated Latin-1 string at `pos`, returning it and the
/// position after it. At the end of the data without a NUL the last byte is
/// dropped, as if it were the terminator.
pub fn read_latin1_str(data: &[u8], pos: usize) -> (res: (String, usize))
    ensures
        res.0@ == latin1_chars(string_field(data@, pos as int)),
        res.1 as int == string_field_end(data@, pos as int),
{
    let mut end = pos;
    while end < data.len() && data[end] != 0
        invariant
            pos <= end,
            nul_position(data@, pos as int) == nul_position(data@, end as int),
        decreases data@.len() - end,
    {
        end += 1;
    }
    if end < data.len() {
        let bytes = vstd::slice::slice_subrange(data, pos, end);
        (latin1_to_string(bytes), end + 1)
    } else if pos < data.len() {
        let bytes = vstd::slice::slice_subrange(data, pos, data.len() - 1);
        (latin1_to_string(bytes), data.len())
    } else {
        (String::new(), data.len())
    }
}

/// Reads the chunk header at `pos`.
pub fn read_cpr_chunk_header(data: &[u8], pos: usize) -> (res: Result<CprChunkHeader, CprCliError>)
    ensures
        res is Ok <==> pos + 16 <= data@.len(),
        res matches Ok(h) ==> {
            &&& h.index_size as int == u32_at(data@, pos as int)
            &&& h._unknown as int == u32_at(data@, pos + 4)
            &&& h.files as int == u32_at(data@, pos + 8)
            &&& h.data_size as int == u32_at(data@, pos + 12)
        },
{
    let start = if pos <= data.len() { pos } else { data.len() };
    let rest = vstd::slice::slice_subrange(data, start, data.len());
    let index_size = read_u32_at(rest, 0)?;
    let unknown = read_u32_at(rest, 4)?;
    let files = read_u32_at(rest, 8)?;
    let data_size = read_u32_at(rest, 12)?;
    Ok(CprChunkHeader { index_size, _unknown: unknown, files, data_size })
}

/// Reads the index entry at `pos`, returning it and the position after it.
pub fn read_cpr_index_entry(data: &[u8], pos: usize) -> (res: Result<(CprIndexEntry, usize), CprCliError>)
    ensures
        res is Ok <==> entry_at(data@, pos as int) is Some,
        res matches Ok((e, next)) ==> entry_at(data@, pos as int) == Some((e.view_entry(), next as int)),
{
    let start = if pos <= data.len() { pos } else { data.len() };
    let rest = vstd::slice::slice_subrange(data, start, data.len());
    let offset = read_u32_at(rest, 0)?;
    let size = read_u32_at(rest, 4)?;
    let unknown = read_u32_at(rest, 8)?;
    let (file_path, next) = read_latin1_str(data, pos + 12);
    Ok((CprIndexEntry { offset, size, _unknown: unknown, file_path }, next))
}

} // verus!

verus! {

impl CprChunk {
    pub open spec fn entries_view(&self) -> Seq<EntryView> {
        self.entries@.map_values(|e: CprIndexEntry| e.view_entry())
    }
}

/// Reads the chunk at `chunk_pos`: `None` when the archive ends there, otherwise
/// its header and the `files` index entries that follow it.
pub fn read_cpr_chunk(data: &[u8], chunk_pos: u64) -> (res: Result<Option<CprChunk>, CprCliError>)
    ensures
        chunk_pos >= data@.len() ==> res matches Ok(None),
        chunk_pos < data@.len() ==> {
            let pos = chunk_pos as int;
            &&& res is Ok <==> (pos + 16 <= data@.len()
                && entries_at(data@, pos + 16, u32_at(data@, pos + 8) as nat) is Some)
            &&& res matches Ok(r) ==> r matches Some(c) && {
                &&& c.header.index_size as int == u32_at(data@, pos)
                &&& c.header._unknown as int == u32_at(data@, pos + 4)
                &&& c.header.files as int == u32_at(data@, pos + 8)
                &&& c.header.data_size as int == u32_at(data@, pos + 12)
                &&& Some(c.entries_view()) == entries_at(data@, pos + 16, c.header.files as nat)
            }
        },
{
    if chunk_pos >= data.len() as u64 {
        return Ok(None);
    }
    let pos = chunk_pos as usize;
    let header = read_cpr_chunk_header(data, pos)?;
    let mut entries: Vec<CprIndexEntry> = vec![];
    let mut next: usize = pos + 16;
    let mut i: u32 = 0;
    let ghost all = entries_at(data@, pos + 16, header.files as nat);
    while i < header.files
        invariant
            pos == chunk_pos,
            chunk_pos < data@.len(),
            pos + 16 <= data@.len(),
            i <= header.files,
            header.files as int == u32_at(data@, pos + 8),
            all == entries_at(data@, pos + 16, header.files as nat),
            match entries_at(data@, next as int, (header.files - i) as nat) {
                None => all is None,
                Some(rest) => all == Some(entries@.map_values(|e: CprIndexEntry| e.view_entry()) + rest),
            },
        decreases header.files - i,
    {
        let ghost before = entries@.map_values(|e: CprIndexEntry| e.view_entry());
        let (entry, after) = match read_cpr_index_entry(data, next) {
            Ok(r) => r,
            Err(e) => {
                assert(entries_at(data@, next as int, (header.files - i) as nat) is None);
                return Err(e);
            },
        };
        proof {
            let k = (header.files - i) as nat;
            assert(entries_at(data@, next as int, k) == match entries_at(data@, after as int, (k - 1) as nat) {
                None => None,
                Some(rest) => Some(seq![entry.view_entry()] + rest),
            });
        }
        entries.push(entry);
        proof {
            assert(entries@.map_values(|e: CprIndexEntry| e.view_entry()) =~= before.push(entry.view_entry()));
            match entries_at(data@, after as int, (header.files - i - 1) as nat) {
                None => {},
                Some(rest) => {
                    assert(before + (seq![entry.view_entry()] + rest) =~= before.push(entry.view_entry()) + rest);
                },
            }
        }
        next = after;
        i += 1;
    }
    proof {
        assert(entries_at(data@, next as int, 0) == Some(Seq::<EntryView>::empty()));
        assert(entries@.map_values(|e: CprIndexEntry| e.view_entry()) + Seq::<EntryView>::empty() =~= entries@.map_values(|e: CprIndexEntry| e.view_entry()));
    }
    Ok(Some(CprChunk { header, entries }))
}

/// Reads the contents of the file that `entry` describes: `size` bytes from
/// `offset`. A file of size 0 reads as empty wherever it lies.
pub fn read_cpr_entry_data(data: &[u8], entry: &CprIndexEntry) -> (res: Result<Vec<u8>, CprCliError>)
    ensures
        res is Ok <==> (entry.size == 0 || entry.offset + entry.size <= data@.len()),
        res matches Ok(v) ==> v@.len() == entry.size && (entry.size > 0 ==> v@ == data@.subrange(
            entry.offset as int,
            entry.offset + entry.size,
        )),
{
    let offset = entry.offset as usize;
    let start = if offset <= data.len() { offset } else { data.len() };
    let rest = vstd::slice::slice_subrange(data, start, data.len());
    match read_exact_vec(rest, entry.size as usize) {
        Ok(v) => {
            assert(entry.size > 0 ==> v@ =~= data@.subrange(entry.offset as int, entry.offset + entry.size));
            Ok(v)
        },
        Err(e) => Err(CprCliError::IoError(e)),
    }
}

impl CprChunkHeader {
    /// The distance from this chunk to the next one: the index and the data.
    pub fn chunk_len(&self) -> (len: u32)
        requires
            self.index_size + self.data_size <= u32::MAX,
        ensures
            len == self.index_size + self.data_size,
    {
        self.index_size + self.data_size
    }
}

} // verus!
