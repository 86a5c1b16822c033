//! The engine's bitmap loader: it checks the `BM` magic and the header size,
//! counts the pixels from the image size, and copies three bytes per pixel
//! into RGBA slots with an opaque alpha.
//!
//! The caller reads the file; [`BMP::load_header`] checks and reads the
//! header, and after the file is closed [`BMP::load_pixels`] copies the
//! pixels.
use vstd::prelude::*;
use crate::assets::{le_u32, read_u32_le};

verus! {

/// Whether the file starts with the bitmap magic `BM`.
pub open spec fn magic_ok(file: Seq<u8>) -> bool {
    file[0] == 0x42 && file[1] == 0x4D
}

/// The padding the loader assumes after each row of `width` pixels:
/// between one and four bytes.
pub open spec fn engine_row_padding(width: u32) -> int {
    4 - width % 4
}

/// The number of pixels the loader counts in an image of `image_size`
/// bytes whose rows are `width` pixels wide, `height` rows tall.
pub open spec fn pixel_count(image_size: int, width: u32, height: u32) -> int {
    (image_size - engine_row_padding(width) * height) / 3
}

/// The inputs on which reading the header neither indexes past the end of
/// the file nor overflows: the magic is read first, then the header size,
/// and only for a supported header the rest.
pub open spec fn header_fits(file: Seq<u8>) -> bool {
    &&& file.len() >= 2
    &&& magic_ok(file) ==> file.len() >= 18
    &&& (magic_ok(file) && le_u32(file, 14) <= 40) ==> {
        &&& file.len() >= 0x26
        &&& engine_row_padding(le_u32(file, 18) as u32) * le_u32(file, 22) <= u32::MAX
        &&& le_u32(file, 0x22) >= engine_row_padding(le_u32(file, 18) as u32) * le_u32(file, 22)
        &&& pixel_count(le_u32(file, 0x22), le_u32(file, 18) as u32, le_u32(file, 22) as u32) * 4
            <= u32::MAX
    }
}

/// Where, after the pixel-data offset, the loader reads pixel `i`: one byte
/// after the previous pixel's start, plus the row padding whenever that
/// position is not a multiple of the width.
pub open spec fn read_position(i: nat, width: u32, pad: int) -> int
    decreases i,
{
    if i == 0 {
        0
    } else {
        let o = read_position((i - 1) as nat, width, pad) + 1;
        if o % (width as int) != 0 {
            o + pad
        } else {
            o
        }
    }
}

/// Law: each pixel is read one byte past the previous pixel's start, plus
/// the row padding exactly when that byte's position is not a multiple of
/// the width; the first pixel is read at the offset itself.
pub proof fn law_read_position_step(i: nat, width: u32)
    requires
        width > 0,
    ensures
        read_position(0, width, engine_row_padding(width)) == 0,
        ({
            let pad = engine_row_padding(width);
            let next = read_position(i, width, pad) + 1;
            &&& next % (width as int) == 0 ==> read_position(i + 1, width, pad) == next
            &&& next % (width as int) != 0 ==> read_position(i + 1, width, pad) == next + pad
        }),
        1 <= engine_row_padding(width) <= 4,
{
}

/// Law: the read positions increase by at least one and at most one plus
/// the padding per pixel, so pixel `i` is read at least `i` and at most
/// `i * (1 + padding)` bytes after the offset.
pub proof fn law_read_position_bounds(i: nat, width: u32)
    requires
        width > 0,
    ensures
        i <= read_position(i, width, engine_row_padding(width)) <= i * (1 + engine_row_padding(
            width,
        )),
    decreases i,
{
    if i > 0 {
        law_read_position_bounds((i - 1) as nat, width);
        assert((i - 1) * (1 + engine_row_padding(width)) + 1 + engine_row_padding(width) == i * (1
            + engine_row_padding(width))) by (nonlinear_arith);
    }
}

/// The positions the loader computes fit in `u32`, every byte it reads lies
/// inside the file, and it never takes a position modulo a zero width.
pub open spec fn pixels_fit(file_len: int, offset: u32, width: u32, pixels: int) -> bool {
    &&& pixels >= 2 ==> width != 0
    &&& forall|i: nat|
        i < pixels ==> {
            &&& #[trigger] read_position(i, width, engine_row_padding(width)) + 1 <= u32::MAX
            &&& offset + read_position(i, width, engine_row_padding(width)) + 3 <= file_len
        }
}

/// Tells whether [`BMP::load_header`] can read `file`.
pub fn header_fits_check(file: &[u8]) -> (r: bool)
    ensures
        r == header_fits(file@),
{
    if file.len() < 2 {
        return false;
    }
    if file[0] != 0x42 || file[1] != 0x4D {
        return true;
    }
    if file.len() < 18 {
        return false;
    }
    if read_u32_le(file, 14) > 40 {
        return true;
    }
    if file.len() < 0x26 {
        return false;
    }
    let w = read_u32_le(file, 18);
    let h = read_u32_le(file, 22) as u64;
    let image_size = read_u32_le(file, 0x22) as u64;
    let pad = (4 - w % 4) as u64;
    proof {
        assert(pad * h <= 4 * 0xFFFF_FFFFu64) by (nonlinear_arith)
            requires
                pad <= 4,
                h <= 0xFFFF_FFFFu64,
        ;
    }
    let pad_n = pad * h;
    if pad_n > 0xFFFF_FFFFu64 || image_size < pad_n {
        return false;
    }
    (image_size - pad_n) / 3 * 4 <= 0xFFFF_FFFFu64
}

/// Tells whether [`BMP::load_pixels`] can copy `pixels` pixels out of a
/// file of `file_len` bytes with the given offset and width.
pub fn pixels_fit_check(file_len: usize, offset: u32, width: u32, pixels: u32) -> (r: bool)
    ensures
        r == pixels_fit(file_len as int, offset, width, pixels as int),
{
    if pixels >= 2 && width == 0 {
        return false;
    }
    let ghost pad_spec = engine_row_padding(width);
    let pad: u64 = (4 - width % 4) as u64;
    let mut o: u64 = 0;
    let mut i: u32 = 0;
    while i < pixels
        invariant
            0 <= i <= pixels,
            pixels >= 2 ==> width != 0,
            pad == pad_spec,
            pad_spec == engine_row_padding(width),
            i < pixels ==> o == read_position(i as nat, width, pad_spec),
            o <= 0xFFFF_FFFFu64,
            forall|j: nat|
                j < i ==> {
                    &&& #[trigger] read_position(j, width, pad_spec) + 1 <= u32::MAX
                    &&& offset + read_position(j, width, pad_spec) + 3 <= file_len
                },
        decreases pixels - i,
    {
        if o + 1 > 0xFFFF_FFFFu64 || offset as u64 + o + 3 > file_len as u64 {
            assert(!(read_position(i as nat, width, pad_spec) + 1 <= u32::MAX && offset
                + read_position(i as nat, width, pad_spec) + 3 <= file_len));
            return false;
        }
        if i + 1 < pixels {
            let next = o + 1;
            if next % (width as u64) != 0 {
                o = next + pad;
            } else {
                o = next;
            }
            assert(o == read_position((i + 1) as nat, width, pad_spec));
            if o > 0xFFFF_FFFFu64 {
                assert(!(read_position((i + 1) as nat, width, pad_spec) + 1 <= u32::MAX));
                return false;
            }
        }
        i = i + 1;
    }
    true
}

/// The header fields read from a bitmap.
#[derive(Debug, Clone, Copy)]
pub struct BIH {
    pub header_size: u32,
    pub width: u32,
    pub height: u32,
    pub compression: u32,
}

impl Default for BIH {
    fn default() -> (r: BIH)
        ensures
            r.header_size == 0 && r.width == 0 && r.height == 0 && r.compression == 0,
    {
        BIH { header_size: 0, width: 0, height: 0, compression: 0 }
    }
}

/// A bitmap asset: its pixel-data offset, header, pixel buffer and size.
#[derive(Debug, Clone)]
pub struct BMP {
    pub offset: u32,
    pub bih: BIH,
    pub handle: Option<Vec<u8>>,
    pub size: u32,
}

impl Default for BMP {
    fn default() -> (r: BMP)
        ensures
            r.offset == 0,
            r.bih.header_size == 0 && r.bih.width == 0 && r.bih.height == 0
                && r.bih.compression == 0,
            r.handle is None,
            r.size == 0,
    {
        BMP { handle: None, size: 0, offset: 0, bih: BIH::default() }
    }
}

impl BMP {
    /// Checks and reads the header of `file`.  A file that does not start
    /// with `BM`, or whose header is larger than 40 bytes, is refused and
    /// leaves the asset as it was.  Otherwise the header size, offset, width
    /// and height are read, and the size becomes four bytes per counted
    /// pixel.  An accepted file replaces the buffer set up when the asset
    /// was opened, so there must be one, by a cleared one of the new size.
    pub fn load_header(&mut self, file: &[u8]) -> (r: Result<(), &'static str>)
        requires
            header_fits(file@),
            magic_ok(file@) && le_u32(file@, 14) <= 40 ==> old(self).handle is Some,
        ensures
            !magic_ok(file@) ==> r == Err::<(), &'static str>("File magic does not match BMP format."),
            magic_ok(file@) && le_u32(file@, 14) > 40 ==> r == Err::<(), &'static str>(
                "Unsupported BMP type, header is larger than 40 bytes",
            ),
            r is Err ==> *final(self) == *old(self),
            magic_ok(file@) && le_u32(file@, 14) <= 40 ==> r is Ok,
            r is Ok ==> {
                &&& magic_ok(file@) && le_u32(file@, 14) <= 40
                &&& final(self).bih.header_size == le_u32(file@, 14)
                &&& final(self).offset == le_u32(file@, 10)
                &&& final(self).bih.width == le_u32(file@, 18)
                &&& final(self).bih.height == le_u32(file@, 22)
                &&& final(self).bih.compression == old(self).bih.compression
                &&& final(self).size == 4 * pixel_count(
                    le_u32(file@, 0x22),
                    le_u32(file@, 18) as u32,
                    le_u32(file@, 22) as u32,
                )
                &&& final(self).handle matches Some(buf) && buf@ == Seq::new(
                    final(self).size as nat,
                    |i: int| 0u8,
                )
            },
    {
        if file[0] != 0x42 || file[1] != 0x4D {
            return Err("File magic does not match BMP format.");
        }
        let header_size = read_u32_le(file, 14);
        if header_size > 40 {
            return Err("Unsupported BMP type, header is larger than 40 bytes");
        }
        self.bih.header_size = header_size;
        self.offset = read_u32_le(file, 10);
        self.bih.width = read_u32_le(file, 18);
        self.bih.height = read_u32_le(file, 22);
        let image_size = read_u32_le(file, 0x22);
        let pad_s = 4 - (self.bih.width % 4);
        let pad_n = pad_s * self.bih.height;
        let pixel_n = (image_size - pad_n) / 3;
        let data_size = pixel_n * 4;
        self.handle = Some(vec![0u8; data_size as usize]);
        self.size = data_size;
        Ok(())
    }

    /// Copies the counted pixels (a quarter of the size) out of `file`: three
    /// bytes each, in file order, from the pixel-data offset plus the read
    /// position, followed by an alpha of 0xFF.
    pub fn load_pixels(&mut self, file: &[u8])
        requires
            pixels_fit(
                file@.len() as int,
                old(self).offset,
                old(self).bih.width,
                (old(self).size / 4) as int,
            ),
        ensures
            final(self).offset == old(self).offset,
            final(self).bih == old(self).bih,
            final(self).size == old(self).size,
            final(self).handle matches Some(out) && {
                let (w, n) = (old(self).bih.width, (old(self).size / 4) as int);
                let pad = engine_row_padding(w);
                &&& out@.len() == 4 * n
                &&& forall|i: nat, c: int|
                    i < n && 0 <= c < 4 ==> #[trigger] out@[4 * i + c] == if c < 3 {
                        file@[old(self).offset + read_position(i, w, pad) + c]
                    } else {
                        0xFFu8
                    }
            },
    {
        let ghost fl = file@;
        let file_len = file.len();
        let w = self.bih.width;
        let offset = self.offset;
        let pad_s: u32 = 4 - (w % 4);
        let pixel_n: u32 = self.size / 4;
        let mut out: Vec<u8> = Vec::new();
        let mut o_index: u32 = 0;
        let mut i: u32 = 0;
        while i < pixel_n
            invariant
                0 <= i <= pixel_n,
                pixel_n == old(self).size / 4,
                w == old(self).bih.width,
                offset == old(self).offset,
                pad_s == engine_row_padding(w),
                fl == file@,
                file_len == fl.len(),
                pixels_fit(fl.len() as int, offset, w, pixel_n as int),
                i > 0 ==> o_index == read_position((i - 1) as nat, w, pad_s as int) + 1,
                i == 0 ==> o_index == 0,
                out@.len() == 4 * i,
                forall|j: nat, c: int|
                    j < i && 0 <= c < 4 ==> #[trigger] out@[4 * j + c] == if c < 3 {
                        fl[offset + read_position(j, w, pad_s as int) + c]
                    } else {
                        0xFFu8
                    },
            decreases pixel_n - i,
        {
            let ghost ii: nat = i as nat;
            assert(read_position(ii, w, pad_s as int) + 1 <= u32::MAX);
            if i != 0 && o_index % w != 0 {
                o_index = o_index + pad_s;
            }
            assert(o_index == read_position(ii, w, pad_s as int));
            let p: usize = offset as usize + o_index as usize;
            let ghost before = out@;
            out.push(file[p]);
            out.push(file[p + 1]);
            out.push(file[p + 2]);
            out.push(0xFF);
            proof {
                assert forall|j: nat, c: int| j < i + 1 && 0 <= c < 4 implies #[trigger] out@[4 * j
                    + c] == if c < 3 {
                    fl[offset + read_position(j, w, pad_s as int) + c]
                } else {
                    0xFFu8
                } by {
                    if j < i {
                        assert(out@[4 * j + c] == before[4 * j + c]);
                    }
                }
            }
            o_index = o_index + 1;
            i = i + 1;
        }
        self.handle = Some(out);
    }
}

} // verus!
