//! Bitmap decoding: the header fields of a BMP file and the conversion of
//! its bottom-up BGR(A) rows into top-down RGBA pixels.
//!
//! Reading the file and closing it are left to the caller: [`BMP::load_header`]
//! takes the file's bytes and fills in the header, and after the file is
//! closed [`BMP::load_pixels`] builds the pixel buffer from the same bytes.
use vstd::prelude::*;

verus! {

/// The little-endian 16-bit value at `at`.
pub open spec fn le_u16(file: Seq<u8>, at: int) -> int {
    file[at] + 256 * file[at + 1]
}

/// The little-endian 32-bit value at `at`.
pub open spec fn le_u32(file: Seq<u8>, at: int) -> int {
    file[at] + 256 * file[at + 1] + 65536 * file[at + 2] + 16777216 * file[at + 3]
}

/// Reads the little-endian 16-bit value at `at`.
pub fn read_u16_le(file: &[u8], at: usize) -> (r: u16)
    requires
        at + 2 <= file@.len(),
    ensures
        r == le_u16(file@, at as int),
{
    file[at] as u16 + (file[at + 1] as u16) * 256
}

/// Reads the little-endian 32-bit value at `at`.
pub fn read_u32_le(file: &[u8], at: usize) -> (r: u32)
    requires
        at + 4 <= file@.len(),
    ensures
        r == le_u32(file@, at as int),
{
    file[at] as u32 + (file[at + 1] as u32) * 256 + (file[at + 2] as u32) * 65536 + (file[at
        + 3] as u32) * 16777216
}

/// Bytes per source pixel: four for 32-bit images, three otherwise.
pub open spec fn bytes_per_pixel(bits: u16) -> int {
    if bits == 32 {
        4
    } else {
        3
    }
}

/// The bytes of one source row, before padding.
pub open spec fn row_bytes(width: u32, bits: u16) -> int {
    width * bytes_per_pixel(bits)
}

/// The padding that brings a row to a multiple of four bytes.
pub open spec fn row_padding(row: int) -> int {
    (4 - row % 4) % 4
}

/// The distance between the starts of two source rows.
pub open spec fn row_stride(width: u32, bits: u16) -> int {
    row_bytes(width, bits) + row_padding(row_bytes(width, bits))
}

/// Law: each stored row starts a multiple of four bytes after the previous
/// one, and its padding is less than four bytes beyond the row's
/// `width * bytes_per_pixel` bytes.
pub proof fn law_row_stride(width: u32, bits: u16)
    ensures
        row_stride(width, bits) % 4 == 0,
        row_bytes(width, bits) <= row_stride(width, bits) < row_bytes(width, bits) + 4,
{
}

/// Law: consecutive rows of the output come from consecutive stored rows,
/// read from the bottom of the file up: pixel `(x, y + 1)` is read exactly
/// one stride before pixel `(x, y)`, and the next pixel in a row is
/// `bytes_per_pixel` further on.
pub proof fn law_source_layout(offset: u32, width: u32, height: u32, bits: u16, x: int, y: int)
    ensures
        source_index(offset, width, height, bits, x, y) == source_index(
            offset,
            width,
            height,
            bits,
            x,
            y + 1,
        ) + row_stride(width, bits),
        source_index(offset, width, height, bits, x + 1, y) == source_index(
            offset,
            width,
            height,
            bits,
            x,
            y,
        ) + bytes_per_pixel(bits),
        source_index(offset, width, height, bits, 0, height - 1) == offset,
{
    assert((height - y - 1) * row_stride(width, bits) == (height - (y + 1) - 1) * row_stride(
        width,
        bits,
    ) + row_stride(width, bits)) by (nonlinear_arith);
    assert((x + 1) * bytes_per_pixel(bits) == x * bytes_per_pixel(bits) + bytes_per_pixel(bits))
        by (nonlinear_arith);
    assert((height - (height - 1) - 1) * row_stride(width, bits) == 0) by (nonlinear_arith);
    assert(0 * bytes_per_pixel(bits) == 0);
}

/// Where the source bytes of pixel `(x, y)` (counted from the top) start:
/// the rows are stored bottom-up, after `offset` bytes.
pub open spec fn source_index(offset: u32, width: u32, height: u32, bits: u16, x: int, y: int) -> int {
    offset + (height - y - 1) * row_stride(width, bits) + x * bytes_per_pixel(bits)
}

/// Byte `c` of the RGBA output pixel `(x, y)`: red, green and blue swapped
/// from the stored blue-green-red order, then the stored alpha for 32-bit
/// images and 0xFF otherwise.
pub open spec fn rgba_byte(
    file: Seq<u8>,
    offset: u32,
    width: u32,
    height: u32,
    bits: u16,
    x: int,
    y: int,
    c: int,
) -> u8 {
    let s = source_index(offset, width, height, bits, x, y);
    if c == 0 {
        file[s + 2]
    } else if c == 1 {
        file[s + 1]
    } else if c == 2 {
        file[s]
    } else if bits == 32 {
        file[s + 3]
    } else {
        0xFF
    }
}

/// Where byte `c` of output pixel `(x, y)` goes.
pub open spec fn output_index(width: u32, x: int, y: int, c: int) -> int {
    4 * (y * width + x) + c
}

/// The sizes that the conversion computes fit in `u32`, and every source
/// byte it reads lies inside the file.
pub open spec fn pixels_fit(file_len: int, offset: u32, width: u32, height: u32, bits: u16) -> bool {
    &&& row_bytes(width, bits) <= u32::MAX
    &&& width * height * 4 <= u32::MAX
    &&& height > 0 ==> row_stride(width, bits) <= u32::MAX
    &&& height > 0 ==> (height - 1) * row_stride(width, bits) <= u32::MAX
    &&& (height > 0 && width > 0) ==> {
        &&& (height - 1) * row_stride(width, bits) + (width - 1) * bytes_per_pixel(bits) <= u32::MAX
        &&& source_index(offset, width, height, bits, width - 1, 0) + bytes_per_pixel(bits)
            <= file_len
    }
}

/// The inputs on which reading the header neither indexes past the end of
/// the file nor overflows while sizing a row and the output.
pub open spec fn header_fits(file: Seq<u8>) -> bool {
    &&& file.len() >= 30
    &&& row_bytes(le_u32(file, 18) as u32, le_u16(file, 28) as u16) <= u32::MAX
    &&& le_u32(file, 18) * le_u32(file, 22) * 4 <= u32::MAX
}

/// Tells whether [`BMP::load_header`] can read `file`.
pub fn header_fits_check(file: &[u8]) -> (r: bool)
    ensures
        r == header_fits(file@),
{
    if file.len() < 30 {
        return false;
    }
    let w = read_u32_le(file, 18) as u128;
    let h = read_u32_le(file, 22) as u128;
    let bits = read_u16_le(file, 28);
    let bpp: u128 = if bits == 32 {
        4
    } else {
        3
    };
    proof {
        assert(w * h <= 0xFFFF_FFFFu128 * 0xFFFF_FFFFu128) by (nonlinear_arith)
            requires
                w <= 0xFFFF_FFFFu128,
                h <= 0xFFFF_FFFFu128,
        ;
    }
    w * bpp <= 0xFFFF_FFFFu128 && w * h * 4 <= 0xFFFF_FFFFu128
}

/// Tells whether [`BMP::load_pixels`] can convert a file of `file_len` bytes
/// with the given header values.
pub fn pixels_fit_check(file_len: usize, offset: u32, width: u32, height: u32, bits: u16) -> (r:
    bool)
    ensures
        r == pixels_fit(file_len as int, offset, width, height, bits),
{
    let w = width as u128;
    let h = height as u128;
    let bpp: u128 = if bits == 32 {
        4
    } else {
        3
    };
    let row = w * bpp;
    let stride = row + (4 - row % 4) % 4;
    proof {
        assert(w * h <= 0xFFFF_FFFFu128 * 0xFFFF_FFFFu128) by (nonlinear_arith)
            requires
                w <= 0xFFFF_FFFFu128,
                h <= 0xFFFF_FFFFu128,
        ;
    }
    if row > 0xFFFF_FFFFu128 || w * h * 4 > 0xFFFF_FFFFu128 {
        return false;
    }
    if h == 0 {
        return true;
    }
    if stride > 0xFFFF_FFFFu128 {
        return false;
    }
    proof {
        assert((h - 1) * stride <= 0xFFFF_FFFFu128 * 0xFFFF_FFFFu128) by (nonlinear_arith)
            requires
                h - 1 <= 0xFFFF_FFFFu128,
                stride <= 0xFFFF_FFFFu128,
        ;
    }
    let last_row = (h - 1) * stride;
    if last_row > 0xFFFF_FFFFu128 {
        return false;
    }
    if w == 0 {
        return true;
    }
    let last = last_row + (w - 1) * bpp;
    last <= 0xFFFF_FFFFu128 && offset as u128 + last + bpp <= file_len as u128
}

/// The header fields read from a bitmap.
#[derive(Debug, Clone, Copy)]
pub struct BIH {
    pub header_size: u32,
    pub width: u32,
    pub height: u32,
    pub bits: u16,
    pub compression: u32,
}

impl Default for BIH {
    fn default() -> (r: BIH)
        ensures
            r.header_size == 0 && r.width == 0 && r.height == 0 && r.bits == 0 && r.compression
                == 0,
    {
        BIH { header_size: 0, width: 0, height: 0, bits: 0, compression: 0 }
    }
}

/// A bitmap asset: its pixel-data offset, header, decoded pixels and size.
#[derive(Debug, Clone)]
pub struct BMP {
    pub offset: u32,
    pub bih: BIH,
    pub handle: Option<Vec<u8>>,
    pub size: u32,
}

impl Default for BMP {
    fn default() -> (r: BMP)
        ensures
            r.offset == 0,
            r.bih.header_size == 0 && r.bih.width == 0 && r.bih.height == 0 && r.bih.bits == 0
                && r.bih.compression == 0,
            r.handle is None,
            r.size == 0,
    {
        BMP { handle: None, size: 0, offset: 0, bih: BIH::default() }
    }
}

/// Raw file contents as an asset.
#[derive(Debug, Clone)]
pub struct Raw {
    pub handle: Option<Vec<u8>>,
    pub size: u32,
}

impl Default for Raw {
    fn default() -> (r: Raw)
        ensures
            r.handle is None,
            r.size == 0,
    {
        Raw { handle: None, size: 0 }
    }
}

impl BMP {
    /// Reads the header of the bitmap file `file`: the header size at 14, the
    /// pixel-data offset at 10, the bits per pixel at 28, and the width and
    /// height at 18 and 22.  The size becomes that of the RGBA output,
    /// `width * height * 4`, and the pixel buffer is replaced by a cleared
    /// one of that size.
    pub fn load_header(&mut self, file: &[u8])
        requires
            header_fits(file@),
        ensures
            final(self).bih.header_size == le_u32(file@, 14),
            final(self).offset == le_u32(file@, 10),
            final(self).bih.bits == le_u16(file@, 28),
            final(self).bih.width == le_u32(file@, 18),
            final(self).bih.height == le_u32(file@, 22),
            final(self).bih.compression == old(self).bih.compression,
            final(self).size == final(self).bih.width * final(self).bih.height * 4,
            final(self).handle matches Some(buf) && buf@ == Seq::new(
                final(self).size as nat,
                |i: int| 0u8,
            ),
    {
        let header_size = read_u32_le(file, 14);
        self.bih.header_size = header_size;
        self.offset = read_u32_le(file, 0x0A);
        self.bih.bits = read_u16_le(file, 0x1C);
        self.bih.width = read_u32_le(file, 18);
        self.bih.height = read_u32_le(file, 22);
        let data_size = self.bih.width * self.bih.height * 4;
        self.handle = Some(vec![0u8; data_size as usize]);
        self.size = data_size;
    }

    /// Converts the pixels of `file`, as the header describes them, into
    /// top-down RGBA rows, and keeps them as the asset's pixel buffer.
    pub fn load_pixels(&mut self, file: &[u8])
        requires
            pixels_fit(
                file@.len() as int,
                old(self).offset,
                old(self).bih.width,
                old(self).bih.height,
                old(self).bih.bits,
            ),
        ensures
            final(self).offset == old(self).offset,
            final(self).bih == old(self).bih,
            final(self).size == old(self).size,
            final(self).handle matches Some(out) && {
                let (w, h) = (old(self).bih.width, old(self).bih.height);
                &&& out@.len() == 4 * w * h
                &&& forall|x: int, y: int, c: int|
                    0 <= x < w && 0 <= y < h && 0 <= c < 4 ==> #[trigger] out@[output_index(
                        w,
                        x,
                        y,
                        c,
                    )] == rgba_byte(file@, old(self).offset, w, h, old(self).bih.bits, x, y, c)
            },
    {
        let ghost fl = file@;
        let file_len = file.len();
        let w = self.bih.width;
        let h = self.bih.height;
        let bits = self.bih.bits;
        let offset = self.offset;
        let row_size: u32 = if bits == 32 {
            w * 4
        } else {
            w * 3
        };
        let pad_s: u32 = (4 - (row_size % 4)) % 4;
        let mut out: Vec<u8> = Vec::new();
        let mut y: u32 = 0;
        while y < h
            invariant
                0 <= y <= h,
                w == old(self).bih.width,
                h == old(self).bih.height,
                bits == old(self).bih.bits,
                offset == old(self).offset,
                fl == file@,
                file_len == fl.len(),
                row_size == row_bytes(w, bits),
                pad_s == row_padding(row_size as int),
                pixels_fit(fl.len() as int, offset, w, h, bits),
                out@.len() == 4 * (y * w),
                forall|xx: int, yy: int, c: int|
                    0 <= xx < w && 0 <= yy && yy * w + xx < y * w && 0 <= c < 4
                        ==> #[trigger] out@[output_index(w, xx, yy, c)] == rgba_byte(
                        fl,
                        offset,
                        w,
                        h,
                        bits,
                        xx,
                        yy,
                        c,
                    ),
            decreases h - y,
        {
            let src_row = h - y - 1;
            proof {
                assert(src_row * row_stride(w, bits) <= (h - 1) * row_stride(w, bits))
                    by (nonlinear_arith)
                    requires
                        0 <= src_row <= h - 1,
                        row_stride(w, bits) >= 0,
                ;
            }
            let src_start = src_row * (row_size + pad_s);
            let mut x: u32 = 0;
            while x < w
                invariant
                    0 <= x <= w,
                    0 <= y < h,
                    w == old(self).bih.width,
                    h == old(self).bih.height,
                    bits == old(self).bih.bits,
                    offset == old(self).offset,
                    fl == file@,
                    file_len == fl.len(),
                    src_row == h - y - 1,
                    src_start == src_row * row_stride(w, bits),
                    src_start <= (h - 1) * row_stride(w, bits),
                    pixels_fit(fl.len() as int, offset, w, h, bits),
                    out@.len() == 4 * (y * w + x),
                    forall|xx: int, yy: int, c: int|
                        0 <= xx < w && 0 <= yy && yy * w + xx < y * w + x && 0 <= c < 4
                            ==> #[trigger] out@[output_index(w, xx, yy, c)] == rgba_byte(
                            fl,
                            offset,
                            w,
                            h,
                            bits,
                            xx,
                            yy,
                            c,
                        ),
                decreases w - x,
            {
                proof {
                    assert(x * bytes_per_pixel(bits) <= (w - 1) * bytes_per_pixel(bits))
                        by (nonlinear_arith)
                        requires
                            0 <= x <= w - 1,
                            bytes_per_pixel(bits) >= 0,
                    ;
                }
                let src_pixel: u32 = if bits == 32 {
                    src_start + x * 4
                } else {
                    src_start + x * 3
                };
                assert(src_pixel <= (h - 1) * row_stride(w, bits) + (w - 1) * bytes_per_pixel(bits));
                assert(offset + src_pixel + bytes_per_pixel(bits) <= fl.len());
                let p: usize = offset as usize + src_pixel as usize;
                assert(p == source_index(offset, w, h, bits, x as int, y as int));
                let b = file[p];
                let g = file[p + 1];
                let r = file[p + 2];
                let ghost before = out@;
                out.push(r);
                out.push(g);
                out.push(b);
                if bits != 32 {
                    out.push(0xFF);
                } else {
                    let a = file[p + 3];
                    out.push(a);
                }
                proof {
                    assert forall|xx: int, yy: int, c: int|
                        0 <= xx < w && 0 <= yy && yy * w + xx < y * w + x + 1 && 0 <= c
                            < 4 implies #[trigger] out@[output_index(w, xx, yy, c)] == rgba_byte(
                        fl,
                        offset,
                        w,
                        h,
                        bits,
                        xx,
                        yy,
                        c,
                    ) by {
                        if yy * w + xx < y * w + x {
                            assert(out@[output_index(w, xx, yy, c)] == before[output_index(
                                w,
                                xx,
                                yy,
                                c,
                            )]);
                        } else {
                            assert(yy * w + xx == y * w + x);
                            lemma_same_ordinal(w as int, xx, yy, x as int, y as int);
                        }
                    }
                }
                x = x + 1;
            }
            proof {
                assert((y + 1) * w == y * w + w) by (nonlinear_arith);
            }
            y = y + 1;
        }
        proof {
            assert forall|xx: int, yy: int, c: int|
                0 <= xx < w && 0 <= yy < h && 0 <= c < 4 implies #[trigger] out@[output_index(
                w,
                xx,
                yy,
                c,
            )] == rgba_byte(fl, offset, w, h, bits, xx, yy, c) by {
                assert(yy * w + xx < h * w) by (nonlinear_arith)
                    requires
                        0 <= xx < w,
                        0 <= yy < h,
                ;
            }
            assert(4 * (h * w) == 4 * w * h) by (nonlinear_arith);
        }
        self.handle = Some(out);
    }
}

/// Within a row of `w` pixels, a pixel's ordinal `y * w + x` determines its
/// coordinates.
proof fn lemma_same_ordinal(w: int, x1: int, y1: int, x2: int, y2: int)
    requires
        0 <= x1 < w,
        0 <= x2 < w,
        0 <= y1,
        0 <= y2,
        y1 * w + x1 == y2 * w + x2,
    ensures
        x1 == x2,
        y1 == y2,
{
    if y1 < y2 {
        assert(y1 * w + w <= y2 * w) by (nonlinear_arith)
            requires
                y1 < y2,
                w >= 0,
        ;
    } else if y2 < y1 {
        assert(y2 * w + w <= y1 * w) by (nonlinear_arith)
            requires
                y2 < y1,
                w >= 0,
        ;
    }
}

} // verus!
