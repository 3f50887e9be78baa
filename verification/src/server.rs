//! The agent's command channel: clients send operations as lines of hex text.
use std::num::ParseIntError;

use vstd::prelude::*;
use vstd::string::StringSliceAdditionalSpecFns;
use vstd::utf8::is_char_boundary;

verus! {

#[verifier::external_type_specification]
#[verifier::external_body]
pub struct ExParseIntError(ParseIntError);

/// Why a client connection ended.
#[derive(Debug)]
pub enum ClientConnectionError {
    IOError(std::io::Error),
    ClientDisconnected,
    InvalidOperation,
}

/// Why the server stopped.
#[derive(Debug)]
pub enum ServerError {
    IOError(std::io::Error),
}

/// The value of a hexadecimal digit, if `b` is one.
pub open spec fn hex_digit(b: u8) -> Option<int> {
    if 0x30 <= b <= 0x39 {
        Some(b - 0x30)
    } else if 0x61 <= b <= 0x66 {
        Some(b - 0x61 + 10)
    } else if 0x41 <= b <= 0x46 {
        Some(b - 0x41 + 10)
    } else {
        None
    }
}

/// The byte that the two-character text `[b0, b1]` denotes in base 16: two hex
/// digits, or a `+` sign and one digit.
pub open spec fn hex_pair(b0: u8, b1: u8) -> Option<u8> {
    if b0 == 0x2b {
        match hex_digit(b1) {
            Some(d) => Some(d as u8),
            None => None,
        }
    } else {
        match (hex_digit(b0), hex_digit(b1)) {
            (Some(d0), Some(d1)) => Some((16 * d0 + d1) as u8),
            _ => None,
        }
    }
}

/// The bytes that the text `bytes` from position `i` on decodes to, two
/// characters per byte, or `None` if some pair is not a byte in base 16.
pub open spec fn hex_decoded(bytes: Seq<u8>, i: int) -> Option<Seq<u8>>
    decreases bytes.len() - i,
{
    if i >= bytes.len() || i + 2 > bytes.len() {
        Some(Seq::empty())
    } else {
        match hex_pair(bytes[i], bytes[i + 1]) {
            None => None,
            Some(v) => match hex_decoded(bytes, i + 2) {
                None => None,
                Some(rest) => Some(seq![v] + rest),
            },
        }
    }
}

/// Whether cutting the text into two-byte pieces, up to the first piece that is
/// not a byte in base 16, always cuts at character boundaries within the text.
pub open spec fn hex_pairs_sliceable(bytes: Seq<u8>, i: int) -> bool
    decreases bytes.len() - i,
{
    if i >= bytes.len() {
        true
    } else {
        &&& i + 2 <= bytes.len()
        &&& is_char_boundary(bytes, i + 2)
        &&& is_char_boundary(bytes.subrange(0, i + 2), i)
        &&& (hex_pair(bytes[i], bytes[i + 1]) is Some ==> hex_pairs_sliceable(bytes, i + 2))
    }
}

/// std's `u8::from_str_radix(s, 16)` on a two-byte string: an optional `+`
/// followed by hex digits (either case) parses to their value; anything else is
/// an error.
#[verifier::external_body]
fn parse_hex_byte(s: &str) -> (res: Result<u8, ParseIntError>)
    requires
        s.spec_bytes().len() == 2,
    ensures
        res is Ok <==> hex_pair(s.spec_bytes()[0], s.spec_bytes()[1]) is Some,
        res matches Ok(v) ==> Some(v) == hex_pair(s.spec_bytes()[0], s.spec_bytes()[1]),
{
    u8::from_str_radix(s, 16)
}

/// Decodes hex text, two characters per byte.
pub fn decode_hex(s: &str) -> (res: Result<Vec<u8>, ParseIntError>)
    requires
        hex_pairs_sliceable(s.spec_bytes(), 0),
    ensures
        match hex_decoded(s.spec_bytes(), 0) {
            Some(v) => res matches Ok(r) && r@ == v,
            None => res is Err,
        },
{
    let ghost bytes = s.spec_bytes();
    let len = s.as_bytes().len();
    let mut out: Vec<u8> = vec![];
    let mut i: usize = 0;
    while i < len
        invariant
            bytes == s.spec_bytes(),
            len == bytes.len(),
            i <= len,
            hex_pairs_sliceable(bytes, i as int),
            hex_decoded(bytes, 0) == match hex_decoded(bytes, i as int) {
                None => None,
                Some(rest) => Some(out@ + rest),
            },
        decreases len - i,
    {
        let (head, _) = s.split_at(i + 2);
        let (_, pair) = head.split_at(i);
        assert(pair.spec_bytes() =~= bytes.subrange(i as int, i + 2));
        match parse_hex_byte(pair) {
            Ok(b) => {
                let ghost before = out@;
                out.push(b);
                proof {
                    match hex_decoded(bytes, i + 2) {
                        None => {},
                        Some(rest) => {
                            assert(before + (seq![b] + rest) =~= out@ + rest);
                        },
                    }
                }
            },
            Err(e) => {
                return Err(e);
            },
        }
        i += 2;
    }
    assert(out@ + Seq::<u8>::empty() =~= out@);
    Ok(out)
}

} // verus!

verus! {

/// The value of the hex digit `b`, if it is one.
fn hex_digit_value(b: u8) -> (d: Option<u8>)
    ensures
        d matches Some(v) ==> hex_digit(b) == Some(v as int),
        d is None ==> hex_digit(b) is None,
{
    if 0x30 <= b && b <= 0x39 {
        Some(b - 0x30)
    } else if 0x61 <= b && b <= 0x66 {
        Some(b - 0x61 + 10)
    } else if 0x41 <= b && b <= 0x46 {
        Some(b - 0x41 + 10)
    } else {
        None
    }
}

/// The byte that the two characters `b0 b1` denote in base 16, if any.
fn hex_pair_value(b0: u8, b1: u8) -> (r: Option<u8>)
    ensures
        r == hex_pair(b0, b1),
{
    if b0 == 0x2b {
        hex_digit_value(b1)
    } else {
        match (hex_digit_value(b0), hex_digit_value(b1)) {
            (Some(d0), Some(d1)) => Some(16 * d0 + d1),
            _ => None,
        }
    }
}

/// Whether decoding `s` as hex text cuts it at character boundaries only, so
/// that `decode_hex` may be called on it.
pub fn hex_text_sliceable(s: &str) -> (r: bool)
    ensures
        r == hex_pairs_sliceable(s.spec_bytes(), 0),
{
    let ghost bytes = s.spec_bytes();
    let b = s.as_bytes();
    let len = b.len();
    let mut i: usize = 0;
    while i < len
        invariant
            bytes == s.spec_bytes(),
            b@ == bytes,
            len == bytes.len(),
            i <= len,
            hex_pairs_sliceable(bytes, 0) == hex_pairs_sliceable(bytes, i as int),
        decreases len - i,
    {
        if len - i < 2 {
            return false;
        }
        if !s.is_char_boundary(i + 2) {
            return false;
        }
        let (head, _) = s.split_at(i + 2);
        if !head.is_char_boundary(i) {
            return false;
        }
        if hex_pair_value(b[i], b[i + 1]).is_none() {
            return true;
        }
        i += 2;
    }
    true
}

/// The length of an operation line: 40 hex characters and a newline.
pub const OPERATION_LINE_LEN: usize = 41;

/// Whether decoding the operation in a 41-byte line cuts the text at character
/// boundaries only.
pub open spec fn operation_line_sliceable(bytes: Seq<u8>) -> bool {
    &&& 40 <= bytes.len()
    &&& is_char_boundary(bytes, 40)
    &&& hex_pairs_sliceable(bytes.subrange(0, 40), 0)
}

/// Whether the operation in the line `buf` can be decoded, cutting the text at
/// character boundaries only, so that `parse_operation_line` may be called on a
/// line of `OPERATION_LINE_LEN` bytes.
pub fn operation_line_is_sliceable(buf: &str) -> (r: bool)
    ensures
        r == operation_line_sliceable(buf.spec_bytes()),
{
    if buf.as_bytes().len() < 40 {
        return false;
    }
    if !buf.is_char_boundary(40) {
        return false;
    }
    let (hex, _) = buf.split_at(40);
    assert(hex.spec_bytes() =~= buf.spec_bytes().subrange(0, 40));
    hex_text_sliceable(hex)
}

/// What a client's line `buf` (of `bytes_read` bytes) asks for: the end of the
/// connection if nothing was read, otherwise the operation that its first 40
/// characters encode in hex; any other line is an invalid operation.
pub fn parse_operation_line(buf: &str, bytes_read: usize) -> (res: Result<Vec<u8>, ClientConnectionError>)
    requires
        bytes_read == OPERATION_LINE_LEN ==> operation_line_sliceable(buf.spec_bytes()),
    ensures
        bytes_read == 0 ==> res matches Err(ClientConnectionError::ClientDisconnected),
        bytes_read != 0 && bytes_read != OPERATION_LINE_LEN ==> res matches Err(ClientConnectionError::InvalidOperation),
        bytes_read == OPERATION_LINE_LEN ==> match hex_decoded(buf.spec_bytes().subrange(0, 40), 0) {
            Some(v) => res matches Ok(r) && r@ == v,
            None => res matches Err(ClientConnectionError::InvalidOperation),
        },
{
    if bytes_read == 0 {
        return Err(ClientConnectionError::ClientDisconnected);
    }
    if bytes_read != OPERATION_LINE_LEN {
        return Err(ClientConnectionError::InvalidOperation);
    }
    let (hex, _) = buf.split_at(40);
    assert(hex.spec_bytes() =~= buf.spec_bytes().subrange(0, 40));
    match decode_hex(hex) {
        Ok(op) => Ok(op),
        Err(_) => Err(ClientConnectionError::InvalidOperation),
    }
}

/// Whether the agent acts on this game tick: once every sixteen ticks, when the
/// low four bits of the game time are all set.
pub fn agent_tick_due(time: u32) -> (due: bool)
    ensures
        due == (time % 16 == 15),
{
    let due = time & 0b00001111 == 0b00001111;
    assert((time & 0b00001111 == 0b00001111) == (time % 16 == 15)) by (bit_vector);
    due
}

} // verus!

verus! {

/// The hex digit of `n` (below 16), as an ASCII byte: lowercase letters, or
/// uppercase ones if `upper`.
pub open spec fn hex_char(n: int, upper: bool) -> u8 {
    if n < 10 {
        (0x30 + n) as u8
    } else if upper {
        (0x41 + n - 10) as u8
    } else {
        (0x61 + n - 10) as u8
    }
}

/// The hex text of `v`, two characters per byte (`{:02x}` each, or `{:02X}` if
/// `upper`), as ASCII bytes.
pub open spec fn hex_encoded(v: Seq<u8>, upper: bool) -> Seq<u8> {
    Seq::new(
        2 * v.len(),
        |j: int|
            if j % 2 == 0 {
                hex_char(v[j / 2] as int / 16, upper)
            } else {
                hex_char(v[j / 2] as int % 16, upper)
            },
    )
}

proof fn lemma_hex_decoded_encoded_from(v: Seq<u8>, upper: bool, k: int)
    requires
        0 <= k <= v.len(),
    ensures
        hex_decoded(hex_encoded(v, upper), 2 * k) == Some(v.skip(k)),
    decreases v.len() - k,
{
    let e = hex_encoded(v, upper);
    if k == v.len() {
        assert(v.skip(k) =~= Seq::<u8>::empty());
    } else {
        lemma_hex_decoded_encoded_from(v, upper, k + 1);
        assert((2 * k) / 2 == k && (2 * k) % 2 == 0);
        assert((2 * k + 1) / 2 == k && (2 * k + 1) % 2 == 1);
        let b = v[k];
        assert(e[2 * k] == hex_char(b as int / 16, upper));
        assert(e[2 * k + 1] == hex_char(b as int % 16, upper));
        assert(hex_pair(e[2 * k], e[2 * k + 1]) == Some(b));
        assert(seq![b] + v.skip(k + 1) =~= v.skip(k));
    }
}

/// Decoding the hex text of any bytes, written in lowercase or in uppercase,
/// gives those bytes back.
pub proof fn lemma_hex_decode_encode(v: Seq<u8>, upper: bool)
    ensures
        hex_decoded(hex_encoded(v, upper), 0) == Some(v),
{
    lemma_hex_decoded_encoded_from(v, upper, 0);
    assert(v.skip(0) =~= v);
}

/// Whether every byte of `bytes` is an ASCII character.
pub open spec fn ascii_bytes(bytes: Seq<u8>) -> bool {
    forall|i: int| 0 <= i < bytes.len() ==> #[trigger] bytes[i] < 0x80
}

proof fn lemma_ascii_valid_utf8(bytes: Seq<u8>)
    requires
        ascii_bytes(bytes),
    ensures
        vstd::utf8::valid_utf8(bytes),
{
    let chars = bytes.map_values(|b: u8| b as char);
    assert(vstd::utf8::is_ascii_chars(chars)) by {
        assert forall|i: int| 0 <= i < chars.len() implies '\0' <= #[trigger] chars[i] <= '\u{7f}' by {
            assert(bytes[i] < 0x80);
        }
    }
    vstd::utf8::is_ascii_chars_encode_utf8(chars);
    assert forall|i: int| 0 <= i < bytes.len() implies #[trigger] vstd::utf8::encode_utf8(chars)[i] == bytes[i] by {
        let b = bytes[i];
        assert(chars[i] as u8 == vstd::utf8::encode_utf8(chars)[i]);
        assert((b as char) as u8 == b);
    }
    assert(vstd::utf8::encode_utf8(chars) =~= bytes);
    vstd::utf8::encode_utf8_valid_utf8(chars);
}

proof fn lemma_ascii_pairs_sliceable(bytes: Seq<u8>, i: int)
    requires
        ascii_bytes(bytes),
        vstd::utf8::valid_utf8(bytes),
        bytes.len() % 2 == 0,
        0 <= i,
        i % 2 == 0,
    ensures
        hex_pairs_sliceable(bytes, i),
    decreases bytes.len() - i,
{
    if i < bytes.len() {
        assert(i + 2 <= bytes.len());
        if i + 2 == bytes.len() {
            vstd::utf8::is_char_boundary_start_end_of_seq(bytes);
        } else {
            vstd::utf8::is_char_boundary_iff_not_is_continuation_byte(bytes, i + 2);
        }
        assert(is_char_boundary(bytes, i + 2));
        let head = bytes.subrange(0, i + 2);
        vstd::utf8::valid_utf8_split(bytes, i + 2);
        assert(head[i] == bytes[i]);
        vstd::utf8::is_char_boundary_iff_not_is_continuation_byte(head, i);
        assert(is_char_boundary(head, i));
        lemma_ascii_pairs_sliceable(bytes, i + 2);
    }
}

/// `decode_hex` reads back the two-digit hex text of any bytes (what `{:02x}`,
/// or `{:02X}` if `upper`, writes for each byte): the text may be cut into
/// pairs at character boundaries, as `decode_hex` requires, and decodes to the
/// bytes, so that `decode_hex` returns `Ok` of them.
pub proof fn lemma_decode_hex_of_hex_text(v: Seq<u8>, upper: bool)
    ensures
        hex_pairs_sliceable(hex_encoded(v, upper), 0),
        hex_decoded(hex_encoded(v, upper), 0) == Some(v),
{
    let e = hex_encoded(v, upper);
    assert(ascii_bytes(e)) by {
        assert forall|i: int| 0 <= i < e.len() implies #[trigger] e[i] < 0x80 by {
            let b = v[i / 2] as int;
            assert(0 <= b / 16 < 16 && 0 <= b % 16 < 16);
        }
    }
    assert(e.len() % 2 == 0);
    lemma_ascii_valid_utf8(e);
    lemma_ascii_pairs_sliceable(e, 0);
    lemma_hex_decode_encode(v, upper);
}

} // verus!
