//! Decoding the pixel buffers that AIM.dll produces into 32-bit BGRA pixels.
use vstd::prelude::*;

use crate::bytes::lemma_row_col;

verus! {

/// The image that AIM.dll fills in: its pixel buffer and palette (`None` where
/// the library left the pointer null), dimensions and encoding.
#[derive(Debug)]
pub struct RawAimFile {
    pub buf: Option<Vec<u8>>,
    pub palette: Option<Vec<u32>>,
    pub width1: u32,
    pub height: u32,
    pub pixel_encoding: u32,
    pub bytes_per_pixel2: u32,
    pub width2: u32,
    pub field_1c: u32,
    pub field_20: u32,
    pub field_24: u32,
    pub field_28: u32,
    pub field_2c: u32,
    pub field_30: u32,
    pub field_34: u32,
    pub field_38: u32,
    pub field_3c: u32,
    pub field_40: u32,
    pub field_44: u32,
    pub field_48: u32,
    pub field_4c: u32,
    pub field_50: u32,
    pub field_54: u32,
    pub inner_ptr: u32,
}

/// A decoded image: `width * height` pixels of four bytes each.
#[derive(Clone, Debug)]
pub struct ParsedAimFile {
    pub data: Vec<u8>,
    pub width: u32,
    pub height: u32,
}

/// Why an AIM file could not be decoded.
#[derive(Clone, Debug)]
pub enum P3AimError {
    ParsingFailed,
    UnknownPixelEncoding(u32),
}

/// The pixel encodings that AIM.dll reports.
#[derive(Clone, Debug, PartialEq, Eq, Structural)]
pub enum PixelEncoding {
    Compact,
    Palette,
    NoAlpha,
    Simple,
}

impl Default for RawAimFile {
    fn default() -> (r: Self)
        ensures
            r.buf is None,
            r.palette is None,
            r.width1 == 0 && r.height == 0 && r.pixel_encoding == 0 && r.bytes_per_pixel2 == 0,
            r.width2 == 0 && r.field_1c == 0 && r.field_20 == 0 && r.field_24 == 0,
            r.field_28 == 0 && r.field_2c == 0 && r.field_30 == 0 && r.field_34 == 0,
            r.field_38 == 0 && r.field_3c == 0 && r.field_40 == 0 && r.field_44 == 0,
            r.field_48 == 0 && r.field_4c == 0 && r.field_50 == 0 && r.field_54 == 0,
            r.inner_ptr == 0,
    {
        RawAimFile {
            buf: None,
            palette: None,
            width1: 0,
            height: 0,
            pixel_encoding: 0,
            bytes_per_pixel2: 0,
            width2: 0,
            field_1c: 0,
            field_20: 0,
            field_24: 0,
            field_28: 0,
            field_2c: 0,
            field_30: 0,
            field_34: 0,
            field_38: 0,
            field_3c: 0,
            field_40: 0,
            field_44: 0,
            field_48: 0,
            field_4c: 0,
            field_50: 0,
            field_54: 0,
            inner_ptr: 0,
        }
    }
}

/// The encoding that the raw code `code` names, if any.
pub open spec fn encoding_of(code: u32) -> Option<PixelEncoding> {
    if code == 0 {
        Some(PixelEncoding::Compact)
    } else if code == 1 {
        Some(PixelEncoding::Palette)
    } else if code == 3 {
        Some(PixelEncoding::NoAlpha)
    } else if code == 4 {
        Some(PixelEncoding::Simple)
    } else {
        None
    }
}

/// Maps the raw encoding code to a pixel encoding.
pub fn get_pixel_encoding(raw_aim_file: &RawAimFile) -> (res: Result<PixelEncoding, P3AimError>)
    ensures
        match encoding_of(raw_aim_file.pixel_encoding) {
            Some(e) => res == Ok::<PixelEncoding, P3AimError>(e),
            None => res == Err::<PixelEncoding, P3AimError>(
                P3AimError::UnknownPixelEncoding(raw_aim_file.pixel_encoding),
            ),
        },
{
    match raw_aim_file.pixel_encoding {
        0 => Ok(PixelEncoding::Compact),
        1 => Ok(PixelEncoding::Palette),
        3 => Ok(PixelEncoding::NoAlpha),
        4 => Ok(PixelEncoding::Simple),
        _ => Err(P3AimError::UnknownPixelEncoding(raw_aim_file.pixel_encoding)),
    }
}

/// Byte `t` (0 = least significant) of `v`.
pub open spec fn le_byte_u32(v: u32, t: int) -> u8 {
    if t == 0 {
        (v & 0xff) as u8
    } else if t == 1 {
        ((v >> 8) & 0xff) as u8
    } else if t == 2 {
        ((v >> 16) & 0xff) as u8
    } else {
        ((v >> 24) & 0xff) as u8
    }
}

/// Byte `t` of the pixel that a compact-encoded byte `p` decodes to.
pub open spec fn compact_byte(p: u8, t: int) -> u8 {
    if t == 0 {
        ((p >> 5) & 3) as u8
    } else if t == 1 {
        ((((p >> 5) & 3) as u8) << 2) as u8
    } else if t == 2 {
        ((((p >> 3) & 3) as u8) << 4) as u8
    } else {
        (((p & 3) as u8) << 6) as u8
    }
}

/// Compact encoding: each input byte becomes one pixel.
pub open spec fn compact_pixels(buf: Seq<u8>, n: int) -> Seq<u8> {
    Seq::new((4 * n) as nat, |j: int| compact_byte(buf[j / 4], j % 4))
}

/// No-alpha encoding: each three input bytes `r, g, b` become the pixel
/// `b, g, r, 0xff`.
pub open spec fn no_alpha_pixels(buf: Seq<u8>, n: int) -> Seq<u8> {
    Seq::new(
        (4 * n) as nat,
        |j: int|
            {
                let k = j / 4;
                let t = j % 4;
                if t == 0 {
                    buf[3 * k + 2]
                } else if t == 1 {
                    buf[3 * k + 1]
                } else if t == 2 {
                    buf[3 * k]
                } else {
                    0xffu8
                }
            },
    )
}

/// Byte `t` of the padding pixel of palette images (opaque magenta).
pub open spec fn padding_byte(t: int) -> u8 {
    if t == 1 {
        0x00u8
    } else {
        0xffu8
    }
}

/// The number of input bytes per row of a palette image.
pub open spec fn palette_stride(width1: u32, width2: u32) -> int {
    if width1 >= width2 {
        width1 as int
    } else {
        width2 as int
    }
}

/// Palette encoding: rows of `stride` input bytes, each of the first `width1`
/// an index into the palette whose entry becomes the pixel; the rest of the row
/// becomes padding pixels.
pub open spec fn palette_pixels(buf: Seq<u8>, palette: Seq<u32>, width1: u32, stride: int, n: int) -> Seq<u8> {
    Seq::new(
        (4 * n) as nat,
        |j: int|
            {
                let q = j / 4;
                let t = j % 4;
                if q % stride < width1 {
                    le_byte_u32(palette[buf[q] as int], t)
                } else {
                    padding_byte(t)
                }
            },
    )
}

/// What decoding the raw image gives, for images whose decoding does not fail
/// on an assertion or an overflow (see `aim_decodable`).
pub open spec fn decoded_aim(raw: RawAimFile) -> Result<(Seq<u8>, u32, u32), P3AimError> {
    match raw.buf {
        None => Err(P3AimError::ParsingFailed),
        Some(buf) => {
            let w1 = raw.width1 as int;
            let h = raw.height as int;
            match encoding_of(raw.pixel_encoding) {
                None => Err(P3AimError::UnknownPixelEncoding(raw.pixel_encoding)),
                Some(PixelEncoding::Compact) => Ok(
                    (compact_pixels(buf@, w1 * (h + 1)), raw.width1, raw.height),
                ),
                Some(PixelEncoding::Palette) => {
                    let stride = palette_stride(raw.width1, raw.width2);
                    Ok(
                        (
                            palette_pixels(buf@, raw.palette.unwrap()@, raw.width1, stride, h * stride),
                            raw.width2,
                            raw.height,
                        ),
                    )
                },
                Some(PixelEncoding::NoAlpha) => Ok((no_alpha_pixels(buf@, w1 * h), raw.width1, raw.height)),
                Some(PixelEncoding::Simple) => Ok((buf@.take(4 * (w1 * h)), raw.width1, raw.height)),
            }
        },
    }
}

/// Whether decoding the raw image succeeds without failing an assertion,
/// overflowing a counter or reading outside the buffers that AIM.dll handed out.
pub open spec fn aim_decodable(raw: RawAimFile) -> bool {
    match raw.buf {
        None => true,
        Some(buf) => {
            let w1 = raw.width1 as int;
            let h = raw.height as int;
            match encoding_of(raw.pixel_encoding) {
                None => true,
                Some(PixelEncoding::Compact) => {
                    &&& raw.palette is None
                    &&& h + 1 <= u32::MAX
                    &&& w1 * (h + 1) <= u32::MAX
                    &&& w1 * (h + 1) <= buf@.len()
                    &&& 4 * (w1 * (h + 1)) <= usize::MAX
                },
                Some(PixelEncoding::Palette) => {
                    let stride = palette_stride(raw.width1, raw.width2);
                    &&& raw.palette is Some
                    &&& h * stride <= i32::MAX
                    &&& h * stride <= buf@.len()
                    &&& 4 * (h * stride) <= usize::MAX
                    &&& forall|q: int|
                        0 <= q < h * stride && q % stride < w1 ==> (#[trigger] buf@[q] as int) < raw.palette.unwrap()@.len()
                },
                Some(PixelEncoding::NoAlpha) => {
                    &&& raw.palette is None
                    &&& w1 * 3 == raw.width2
                    &&& w1 * h <= u32::MAX
                    &&& 3 * (w1 * h) <= u32::MAX
                    &&& 3 * (w1 * h) <= buf@.len()
                    &&& 4 * (w1 * h) <= usize::MAX
                },
                Some(PixelEncoding::Simple) => {
                    &&& raw.palette is None
                    &&& w1 * 4 == raw.width2
                    &&& w1 * h <= u32::MAX
                    &&& 4 * (w1 * h) <= buf@.len()
                },
            }
        },
    }
}

} // verus!

verus! {

fn decode_compact(buf: &Vec<u8>, input_pixels: u32) -> (data: Vec<u8>)
    requires
        input_pixels <= buf@.len(),
        4 * input_pixels <= usize::MAX,
    ensures
        data@ == compact_pixels(buf@, input_pixels as int),
{
    let mut data: Vec<u8> = vec![];
    let mut i: u32 = 0;
    while i < input_pixels
        invariant
            i <= input_pixels,
            input_pixels <= buf@.len(),
            data@ == compact_pixels(buf@, i as int),
        decreases input_pixels - i,
    {
        let pixel = buf[i as usize];
        let a = (pixel & 0b11) << 6;
        let r = ((pixel >> 3) & 0b11) << 4;
        let g = ((pixel >> 5) & 0b11) << 2;
        let b = (pixel >> 5) & 0b11;
        data.push(b);
        data.push(g);
        data.push(r);
        data.push(a);
        assert(data@ =~= compact_pixels(buf@, i + 1));
        i += 1;
    }
    data
}

fn decode_no_alpha(buf: &Vec<u8>, input_pixels: u32) -> (data: Vec<u8>)
    requires
        3 * input_pixels <= u32::MAX,
        3 * input_pixels <= buf@.len(),
        4 * input_pixels <= usize::MAX,
    ensures
        data@ == no_alpha_pixels(buf@, input_pixels as int),
{
    let mut data: Vec<u8> = vec![];
    let mut i: u32 = 0;
    while i < input_pixels * 3
        invariant
            3 * input_pixels <= u32::MAX,
            3 * input_pixels <= buf@.len(),
            i % 3 == 0,
            i <= 3 * input_pixels,
            data@ == no_alpha_pixels(buf@, i as int / 3),
        decreases 3 * input_pixels - i,
    {
        let r = buf[i as usize];
        let g = buf[(i + 1) as usize];
        let b = buf[(i + 2) as usize];
        let ghost k = i / 3;
        i += 3;
        let a: u8 = 0xff;
        data.push(b);
        data.push(g);
        data.push(r);
        data.push(a);
        assert(data@ =~= no_alpha_pixels(buf@, k + 1));
    }
    data
}

fn decode_simple(buf: &Vec<u8>, input_pixels: u32) -> (data: Vec<u8>)
    requires
        4 * input_pixels <= buf@.len(),
    ensures
        data@ == buf@.take(4 * input_pixels),
{
    let mut data: Vec<u8> = vec![];
    let buf_len = buf.len();
    let n: usize = 4 * (input_pixels as usize);
    let mut i: usize = 0;
    while i < n
        invariant
            n == 4 * input_pixels,
            n <= buf@.len(),
            i <= n,
            data@ == buf@.take(i as int),
        decreases n - i,
    {
        data.push(buf[i]);
        assert(data@ =~= buf@.take(i + 1));
        i += 1;
    }
    data
}

fn decode_palette(buf: &Vec<u8>, palette: &Vec<u32>, width1: u32, width2: u32, height: u32) -> (data: Vec<u8>)
    requires
        height * palette_stride(width1, width2) <= i32::MAX,
        height * palette_stride(width1, width2) <= buf@.len(),
        forall|q: int|
            0 <= q < height * palette_stride(width1, width2) && q % palette_stride(width1, width2) < width1
                ==> (#[trigger] buf@[q] as int) < palette@.len(),
    ensures
        data@ == palette_pixels(
            buf@,
            palette@,
            width1,
            palette_stride(width1, width2),
            height * palette_stride(width1, width2),
        ),
{
    let ghost m = palette_stride(width1, width2);
    let mut data: Vec<u8> = vec![];
    let mut i: i32 = 0;
    let mut row: u32 = 0;
    while row < height
        invariant
            m == palette_stride(width1, width2),
            height * m <= i32::MAX,
            height * m <= buf@.len(),
            forall|q: int| 0 <= q < height * m && q % m < width1 ==> (#[trigger] buf@[q] as int) < palette@.len(),
            row <= height,
            i == row * m,
            data@ == palette_pixels(buf@, palette@, width1, m, i as int),
        decreases height - row,
    {
        proof {
            assert(row * m + m <= height * m) by (nonlinear_arith)
                requires
                    row < height,
                    m >= 0,
            ;
            assert((row + 1) * m == row * m + m) by (nonlinear_arith);
        }
        let mut col: u32 = 0;
        while col < width1
            invariant
                m == palette_stride(width1, width2),
                width1 <= m,
                row * m + m <= height * m,
                height * m <= i32::MAX,
                height * m <= buf@.len(),
                forall|q: int| 0 <= q < height * m && q % m < width1 ==> (#[trigger] buf@[q] as int) < palette@.len(),
                row < height,
                col <= width1,
                i == row * m + col,
                data@ == palette_pixels(buf@, palette@, width1, m, i as int),
            decreases width1 - col,
        {
            proof {
                lemma_row_col(row as int, col as int, m);
            }
            let pixel_id = buf[i as usize];
            let pixel = palette[pixel_id as usize];
            data.push((pixel & 0xff) as u8);
            data.push(((pixel >> 8) & 0xff) as u8);
            data.push(((pixel >> 16) & 0xff) as u8);
            data.push(((pixel >> 24) & 0xff) as u8);
            assert(data@ =~= palette_pixels(buf@, palette@, width1, m, i + 1));
            i += 1;
            col += 1;
        }
        let mut col2: u32 = width1;
        while col2 < width2
            invariant
                m == palette_stride(width1, width2),
                width2 <= m,
                row * m + m <= height * m,
                height * m <= i32::MAX,
                row < height,
                width1 <= col2,
                col2 <= width2 || width2 < width1,
                width2 < width1 ==> col2 == width1,
                (row + 1) * m == row * m + m,
                i == row * m + col2,
                data@ == palette_pixels(buf@, palette@, width1, m, i as int),
            decreases width2 - col2,
        {
            proof {
                lemma_row_col(row as int, col2 as int, m);
            }
            data.push(0xff);
            data.push(0x00);
            data.push(0xff);
            data.push(0xff);
            assert(data@ =~= palette_pixels(buf@, palette@, width1, m, i + 1));
            i += 1;
            col2 += 1;
        }
        row += 1;
    }
    data
}

} // verus!

verus! {

/// Whether every palette index that decoding reads, among the first `n` bytes of
/// `buf` in rows of `stride`, names an entry of a palette of `palette_len`
/// entries.
fn palette_indices_in_range(buf: &Vec<u8>, palette_len: usize, width1: u32, stride: u64, n: u64) -> (r: bool)
    requires
        n <= buf@.len(),
        n > 0 ==> stride > 0,
    ensures
        r == forall|q: int| 0 <= q < n && q % (stride as int) < width1 ==> (#[trigger] buf@[q] as int) < palette_len,
{
    let buf_len = buf.len();
    assert(n <= buf_len);
    let end = n as usize;
    let mut q: usize = 0;
    while q < end
        invariant
            end == n,
            q <= n,
            n <= buf@.len(),
            n > 0 ==> stride > 0,
            forall|p: int| 0 <= p < q && p % (stride as int) < width1 ==> (#[trigger] buf@[p] as int) < palette_len,
        decreases end - q,
    {
        let index = buf[q];
        let column = (q as u64) % stride;
        assert(column == (q as int) % (stride as int));
        if column < width1 as u64 && index as usize >= palette_len {
            assert(buf@[q as int] == index);
            return false;
        }
        q += 1;
    }
    true
}

/// Whether decoding the raw image gets through without an assertion failing or
/// an overflow (`aim_decodable`), so that `decode_aim_file` may be called on it.
pub fn aim_is_decodable(raw: &RawAimFile) -> (r: bool)
    ensures
        r == aim_decodable(*raw),
{
    let buf = match &raw.buf {
        None => {
            return true;
        },
        Some(b) => b,
    };
    let w1 = raw.width1 as u64;
    let w2 = raw.width2 as u64;
    let h = raw.height as u64;
    let len = buf.len() as u64;
    proof {
        assert(w1 * (h + 1) <= 0xffff_ffff * 0x1_0000_0000) by (nonlinear_arith)
            requires
                w1 <= 0xffff_ffff,
                h <= 0xffff_ffff,
        ;
        assert(w1 * h <= 0xffff_ffff * 0xffff_ffff) by (nonlinear_arith)
            requires
                w1 <= 0xffff_ffff,
                h <= 0xffff_ffff,
        ;
    }
    match raw.pixel_encoding {
        0 => {
            let n = w1 * (h + 1);
            raw.palette.is_none() && h + 1 <= 0xffff_ffff && n <= 0xffff_ffff && n <= len && (n as u128) * 4
                <= usize::MAX as u128
        },
        1 => {
            let palette = match &raw.palette {
                None => {
                    return false;
                },
                Some(p) => p,
            };
            let stride: u64 = if w1 >= w2 { w1 } else { w2 };
            proof {
                assert(h * stride <= 0xffff_ffff * 0xffff_ffff) by (nonlinear_arith)
                    requires
                        stride <= 0xffff_ffff,
                        h <= 0xffff_ffff,
                ;
                assert(h * stride > 0 ==> stride > 0) by (nonlinear_arith);
            }
            let n = h * stride;
            if !(n <= 0x7fff_ffff && n <= len && (n as u128) * 4 <= usize::MAX as u128) {
                return false;
            }
            palette_indices_in_range(buf, palette.len(), raw.width1, stride, n)
        },
        3 => {
            let n = w1 * h;
            raw.palette.is_none() && w1 * 3 == w2 && n <= 0xffff_ffff && n * 3 <= 0xffff_ffff && n * 3 <= len
                && (n as u128) * 4 <= usize::MAX as u128
        },
        4 => {
            let n = w1 * h;
            raw.palette.is_none() && w1 * 4 == w2 && n <= 0xffff_ffff && (n as u128) * 4 <= len as u128
        },
        _ => true,
    }
}

/// Decodes the image that AIM.dll produced into four bytes per pixel.
pub fn decode_aim_file(raw_aim_file: &RawAimFile) -> (res: Result<ParsedAimFile, P3AimError>)
    requires
        aim_decodable(*raw_aim_file),
    ensures
        match decoded_aim(*raw_aim_file) {
            Ok((data, width, height)) => res matches Ok(p) && p.data@ == data && p.width == width
                && p.height == height,
            Err(e) => res matches Err(r) && r == e,
        },
{
    let buf = match &raw_aim_file.buf {
        None => {
            return Err(P3AimError::ParsingFailed);
        },
        Some(b) => b,
    };
    let encoding = get_pixel_encoding(raw_aim_file)?;
    match encoding {
        PixelEncoding::Compact => {
            let input_pixels = raw_aim_file.width1 * (raw_aim_file.height + 1);
            let data = decode_compact(buf, input_pixels);
            Ok(ParsedAimFile { data, width: raw_aim_file.width1, height: raw_aim_file.height })
        },
        PixelEncoding::Palette => {
            let palette = match &raw_aim_file.palette {
                Some(p) => p,
                None => {
                    return Err(P3AimError::ParsingFailed);
                },
            };
            let data = decode_palette(buf, palette, raw_aim_file.width1, raw_aim_file.width2, raw_aim_file.height);
            Ok(ParsedAimFile { data, width: raw_aim_file.width2, height: raw_aim_file.height })
        },
        PixelEncoding::NoAlpha => {
            let input_pixels = raw_aim_file.width1 * raw_aim_file.height;
            let data = decode_no_alpha(buf, input_pixels);
            Ok(ParsedAimFile { data, width: raw_aim_file.width1, height: raw_aim_file.height })
        },
        PixelEncoding::Simple => {
            let input_pixels = raw_aim_file.width1 * raw_aim_file.height;
            let data = decode_simple(buf, input_pixels);
            Ok(ParsedAimFile { data, width: raw_aim_file.width1, height: raw_aim_file.height })
        },
    }
}

/// The number of bytes of the pixel buffer that decoding reads, for the known
/// encodings, as long as it fits in a `u64`.
pub open spec fn pixel_buffer_len_spec(width1: u32, width2: u32, height: u32, pixel_encoding: u32) -> Option<int> {
    match encoding_of(pixel_encoding) {
        None => None,
        Some(PixelEncoding::Compact) => Some(width1 * (height + 1)),
        Some(PixelEncoding::Palette) => Some(height * palette_stride(width1, width2)),
        Some(PixelEncoding::NoAlpha) => Some(3 * (width1 * height)),
        Some(PixelEncoding::Simple) => Some(4 * (width1 * height)),
    }
}

/// How many bytes of the pixel buffer decoding an image with these dimensions
/// and encoding reads (`None` for an unknown encoding).
pub fn pixel_buffer_len(width1: u32, width2: u32, height: u32, pixel_encoding: u32) -> (len: Option<u64>)
    ensures
        len matches Some(l) ==> pixel_buffer_len_spec(width1, width2, height, pixel_encoding) == Some(l as int),
        len is None ==> (pixel_buffer_len_spec(width1, width2, height, pixel_encoding) matches Some(l)
            ==> l > u64::MAX),
{
    let w1 = width1 as u64;
    let w2 = width2 as u64;
    let h = height as u64;
    proof {
        assert(w1 * (h + 1) <= 0xffff_ffff * 0x1_0000_0000) by (nonlinear_arith)
            requires
                w1 <= 0xffff_ffff,
                h <= 0xffff_ffff,
        ;
        assert(w1 * h <= 0xffff_ffff * 0xffff_ffff) by (nonlinear_arith)
            requires
                w1 <= 0xffff_ffff,
                h <= 0xffff_ffff,
        ;
        assert(h * w2 <= 0xffff_ffff * 0xffff_ffff) by (nonlinear_arith)
            requires
                w2 <= 0xffff_ffff,
                h <= 0xffff_ffff,
        ;
        assert(h * w1 <= 0xffff_ffff * 0xffff_ffff) by (nonlinear_arith)
            requires
                w1 <= 0xffff_ffff,
                h <= 0xffff_ffff,
        ;
    }
    match pixel_encoding {
        0 => Some(w1 * (h + 1)),
        1 => Some(h * (if w1 >= w2 { w1 } else { w2 })),
        3 => (w1 * h).checked_mul(3),
        4 => (w1 * h).checked_mul(4),
        _ => None,
    }
}

/// The bytes that a latin-1 file name becomes for AIM.dll: each character cut to
/// its low byte, then a NUL.
pub open spec fn latin1_c_string(s: Seq<char>) -> Seq<u8> {
    s.map_values(|c: char| c as u8).push(0u8)
}

} // verus!

verus! {

/// Converts a file name to the NUL-terminated byte string that AIM.dll expects.
pub fn str_to_latin1(s: &str) -> (res: Vec<u8>)
    ensures
        res@ == latin1_c_string(s@),
{
    let mut vec: Vec<u8> = Vec::new();
    for c in it: s.chars()
        invariant
            it.seq() == s@,
            vec@ == s@.take(it.index() as int).map_values(|c: char| c as u8),
    {
        let ghost before = vec@;
        vec.push(c as u8);
        assert(vec@ =~= s@.take(it.index() + 1).map_values(|c: char| c as u8));
    }
    assert(s@.take(s@.len() as int) =~= s@);
    vec.push(0);
    vec
}

} // verus!

verus! {

/// The index, within a four-byte pixel, of the input byte that lands at
/// position `t` when swapping BGRA to RGBA.
pub open spec fn swap_red_blue(t: int) -> int {
    if t == 0 {
        2
    } else if t == 2 {
        0
    } else {
        t
    }
}

/// The image's pixels, row by row, with red and blue swapped (BGRA to RGBA).
pub open spec fn rgba_pixels(data: Seq<u8>, n: int) -> Seq<u8> {
    Seq::new((4 * n) as nat, |j: int| data[4 * (j / 4) + swap_red_blue(j % 4)])
}

/// Converts a decoded image to RGBA order for writing as a bitmap: `width *
/// height` pixels, row by row.
pub fn rgba_from_bgra(image: &ParsedAimFile) -> (rgba: Vec<u8>)
    requires
        4 * (image.width * image.height) <= image.data@.len(),
    ensures
        rgba@ == rgba_pixels(image.data@, image.width * image.height),
{
    let data_len = image.data.len();
    let n: usize = (image.width as usize) * (image.height as usize);
    let mut rgba: Vec<u8> = vec![];
    let mut k: usize = 0;
    let mut i: usize = 0;
    while k < n
        invariant
            data_len == image.data@.len(),
            n == image.width * image.height,
            4 * n <= data_len,
            k <= n,
            i == 4 * k,
            rgba@ == rgba_pixels(image.data@, k as int),
        decreases n - k,
    {
        rgba.push(image.data[i + 2]);
        rgba.push(image.data[i + 1]);
        rgba.push(image.data[i]);
        rgba.push(image.data[i + 3]);
        assert(rgba@ =~= rgba_pixels(image.data@, k + 1));
        i += 4;
        k += 1;
    }
    rgba
}

} // verus!

verus! {

/// A decoded image holds four bytes for each of its `width * height` pixels (or
/// more), so that converting it for a bitmap stays inside its data.
pub proof fn lemma_decoded_aim_covers_image(raw: RawAimFile)
    requires
        aim_decodable(raw),
    ensures
        decoded_aim(raw) matches Ok((data, width, height)) ==> data.len() >= 4 * (width * height),
{
    if let Ok((data, width, height)) = decoded_aim(raw) {
        let buf = raw.buf.unwrap();
        let w1 = raw.width1 as int;
        let h = raw.height as int;
        match encoding_of(raw.pixel_encoding) {
            Some(PixelEncoding::Compact) => {
                assert(w1 * (h + 1) >= w1 * h) by (nonlinear_arith)
                    requires
                        w1 >= 0,
                        h >= 0,
                ;
            },
            Some(PixelEncoding::Palette) => {
                let stride = palette_stride(raw.width1, raw.width2);
                assert(h * stride >= raw.width2 * h) by (nonlinear_arith)
                    requires
                        stride >= raw.width2,
                        h >= 0,
                ;
            },
            _ => {},
        }
    }
}

/// Turning bytes into a Latin-1 string and back into a file name for AIM.dll
/// gives the bytes back, NUL-terminated.
pub proof fn lemma_latin1_roundtrip(bytes: Seq<u8>)
    ensures
        latin1_c_string(crate::cpr::latin1_chars(bytes)) == bytes.push(0u8),
{
    let chars = crate::cpr::latin1_chars(bytes);
    assert forall|i: int| 0 <= i < bytes.len() implies (chars[i] as u8) == bytes[i] by {
        let b = bytes[i];
        assert((b as char) as u8 == b);
    }
    assert(chars.map_values(|c: char| c as u8) =~= bytes);
}

} // verus!
