//! Rendering helpers: which tile of a sprite sheet an index names, the
//! power-of-two sizes the GU wants for textures, the frame counter of the
//! main loop, and a hexadecimal dump of memory.
use vstd::prelude::*;

verus! {

/// The column and row, in a sheet `texture_width` pixels wide cut into
/// tiles `tile_width` pixels wide, of the tile numbered `index` (counted
/// row by row).
pub open spec fn tile_of(texture_width: u32, tile_width: u32, index: u32) -> (u32, u32) {
    let per_row = texture_width / tile_width;
    ((index % per_row) as u32, (index / per_row) as u32)
}

/// Law: tiles are numbered row by row: the column is less than the number of
/// tiles per row, and row times tiles-per-row plus column is the index.
pub proof fn law_tile_numbering(texture_width: u32, tile_width: u32, index: u32)
    requires
        tile_width > 0,
        texture_width / tile_width > 0,
    ensures
        ({
            let per_row = texture_width / tile_width;
            let (col, row) = tile_of(texture_width, tile_width, index);
            &&& col < per_row
            &&& row * per_row + col == index
        }),
{
    let per_row = (texture_width / tile_width) as int;
    vstd::arithmetic::div_mod::lemma_fundamental_div_mod(index as int, per_row);
    assert(0 <= (index as int) % per_row < per_row) by {
        vstd::arithmetic::div_mod::lemma_mod_bound(index as int, per_row);
    }
    assert(0 <= (index as int) / per_row <= index) by {
        vstd::arithmetic::div_mod::lemma_div_is_ordered_by_denominator(index as int, 1, per_row);
        vstd::arithmetic::div_mod::lemma_div_pos_is_pos(index as int, per_row);
    }
    assert(((index as int) / per_row) * per_row == per_row * ((index as int) / per_row))
        by (nonlinear_arith);
}

/// The column and row of tile `index` in a sprite sheet of
/// `texture_width` by `texture_height` pixels cut into tiles of
/// `tile_width` by `tile_height` pixels.  Both sizes are divided, so both
/// tile sizes must be positive, and a row must hold at least one tile.
pub fn sprite_cell(
    texture_width: u32,
    texture_height: u32,
    tile_width: u32,
    tile_height: u32,
    index: u32,
) -> (r: (u32, u32))
    requires
        tile_width > 0,
        tile_height > 0,
        texture_width / tile_width > 0,
    ensures
        r == tile_of(texture_width, tile_width, index),
{
    let tex_w = texture_width / tile_width;
    let _tex_h = texture_height / tile_height;
    let x_ind = index % tex_w;
    let y_ind = index / tex_w;
    (x_ind, y_ind)
}

/// Whether `n` is a power of two.
pub open spec fn is_power_of_two(n: int) -> bool
    decreases n,
{
    if n <= 0 {
        false
    } else if n == 1 {
        true
    } else {
        n % 2 == 0 && is_power_of_two(n / 2)
    }
}

/// The smallest power of two that is at least `n` (1 for 0).
pub fn pow2_at_least(n: u32) -> (r: u32)
    requires
        n <= 0x8000_0000,
    ensures
        is_power_of_two(r as int),
        n <= r,
        r == 1 || r / 2 < n,
{
    let mut p: u32 = 1;
    while p < n
        invariant
            is_power_of_two(p as int),
            1 <= p <= 0x8000_0000,
            p == 1 || p / 2 < n,
            n <= 0x8000_0000,
        decreases 0x8000_0000 - p,
    {
        assert(p <= 0x4000_0000) by {
            assert(is_power_of_two(0x4000_0000)) by {
                reveal_with_fuel(is_power_of_two, 32);
            }
            lemma_power_of_two_bound(p as int, 0x4000_0000);
        }
        p = p * 2;
    }
    p
}

/// A power of two below twice the power of two `b` is at most `b`.
proof fn lemma_power_of_two_bound(p: int, b: int)
    requires
        is_power_of_two(p),
        is_power_of_two(b),
        p < 2 * b,
    ensures
        p <= b,
    decreases p,
{
    if p > 1 && b > 1 {
        lemma_power_of_two_bound(p / 2, b / 2);
    }
}

/// The texture size the GU is given for an image of `width` by `height`:
/// each dimension rounded up to a power of two.
pub fn convert_ptwo(width: u32, height: u32) -> (r: (u32, u32))
    requires
        width <= 0x8000_0000,
        height <= 0x8000_0000,
    ensures
        is_power_of_two(r.0 as int) && width <= r.0 && (r.0 == 1 || r.0 / 2 < width),
        is_power_of_two(r.1 as int) && height <= r.1 && (r.1 == 1 || r.1 / 2 < height),
{
    (pow2_at_least(width), pow2_at_least(height))
}

/// The main loop's sprite index after one frame: one more, wrapping to 0
/// past 11.
pub fn next_frame_index(index: u32) -> (r: u32)
    requires
        index < u32::MAX,
    ensures
        r == if index + 1 > 11 {
            0
        } else {
            index + 1
        },
{
    let mut index = index + 1;
    if index > 11 {
        index = 0;
    }
    index
}

/// The upper-case hexadecimal digit for `d` (below 16).
pub open spec fn hex_digit(d: int) -> char {
    if d < 10 {
        (48 + d) as char
    } else {
        (55 + d) as char
    }
}

/// The text of one byte: two hexadecimal digits and a space.
pub open spec fn byte_text(b: u8) -> Seq<char> {
    seq![hex_digit((b / 16) as int), hex_digit((b % 16) as int), ' ']
}

/// The text of `bytes`: each byte's text, with a line break after every
/// fourth byte.
pub open spec fn hex_lines(bytes: Seq<u8>) -> Seq<char>
    decreases bytes.len(),
{
    if bytes.len() == 0 {
        Seq::empty()
    } else {
        hex_lines(bytes.drop_last()) + byte_text(bytes.last()) + if bytes.len() % 4 == 0 {
            seq!['\n']
        } else {
            Seq::empty()
        }
    }
}

/// The dump of `bytes`: their text, ending with a line break when the last
/// line is not full.
pub open spec fn hex_dump(bytes: Seq<u8>) -> Seq<char> {
    hex_lines(bytes) + if bytes.len() % 4 != 0 {
        seq!['\n']
    } else {
        Seq::empty()
    }
}

/// Law: the text of `n` bytes has three characters per byte and a line
/// break per full line of four.
pub proof fn law_hex_lines_len(bytes: Seq<u8>)
    ensures
        hex_lines(bytes).len() == 3 * bytes.len() + bytes.len() / 4,
    decreases bytes.len(),
{
    if bytes.len() > 0 {
        law_hex_lines_len(bytes.drop_last());
    }
}

/// Law: the dump of `n` bytes has three characters per byte and one line
/// break per started line of four.
pub proof fn law_hex_dump_len(bytes: Seq<u8>)
    ensures
        hex_dump(bytes).len() == 3 * bytes.len() + (bytes.len() + 3) / 4,
{
    law_hex_lines_len(bytes);
}

/// The value of a hexadecimal digit: `'0'..='9'` and `'A'..='F'` give 0 to
/// 15; any other character gives -1.
pub open spec fn hex_value(c: char) -> int {
    if '0' <= c && c <= '9' {
        c as int - '0' as int
    } else if 'A' <= c && c <= 'F' {
        c as int - 'A' as int + 10
    } else {
        -1
    }
}

/// Law: a byte's text is two upper-case hexadecimal digits, high nibble
/// first, that read back as the byte, followed by a space.
pub proof fn law_byte_text_reads_back(b: u8)
    ensures
        byte_text(b).len() == 3,
        ('0' <= byte_text(b)[0] <= '9') || ('A' <= byte_text(b)[0] <= 'F'),
        ('0' <= byte_text(b)[1] <= '9') || ('A' <= byte_text(b)[1] <= 'F'),
        hex_value(byte_text(b)[0]) * 16 + hex_value(byte_text(b)[1]) == b,
        byte_text(b)[2] == ' ',
{
    let hi = (b / 16) as int;
    let lo = (b % 16) as int;
    assert(0 <= hi < 16 && 0 <= lo < 16 && hi * 16 + lo == b);
    lemma_hex_digit(hi);
    lemma_hex_digit(lo);
}

/// A digit below 16 is a hexadecimal digit that reads back as itself.
proof fn lemma_hex_digit(d: int)
    requires
        0 <= d < 16,
    ensures
        ('0' <= hex_digit(d) <= '9') || ('A' <= hex_digit(d) <= 'F'),
        hex_value(hex_digit(d)) == d,
{
}

fn hex_digit_char(d: u8) -> (c: char)
    requires
        d < 16,
    ensures
        c == hex_digit(d as int),
{
    if d < 10 {
        (48 + d) as char
    } else {
        (55 + d) as char
    }
}

/// A hexadecimal dump of `bytes`: two upper-case digits and a space per
/// byte, four bytes to a line.
pub fn memory_hex(bytes: &[u8]) -> (r: String)
    ensures
        r@ == hex_dump(bytes@),
{
    let mut text: Vec<char> = Vec::new();
    let mut i: usize = 0;
    while i < bytes.len()
        invariant
            0 <= i <= bytes@.len(),
            text@ == hex_lines(bytes@.subrange(0, i as int)),
        decreases bytes@.len() - i,
    {
        let b = bytes[i];
        text.push(hex_digit_char(b / 16));
        text.push(hex_digit_char(b % 16));
        text.push(' ');
        if (i + 1) % 4 == 0 {
            text.push('\n');
        }
        proof {
            let next = bytes@.subrange(0, i + 1);
            assert(next.drop_last() =~= bytes@.subrange(0, i as int));
            assert(text@ =~= hex_lines(next));
        }
        i = i + 1;
    }
    if bytes.len() % 4 != 0 {
        text.push('\n');
    }
    assert(bytes@.subrange(0, bytes@.len() as int) =~= bytes@);
    assert(text@ =~= hex_dump(bytes@));
    string_from_chars(text)
}

/// Collects `chars` into a `String` (`String::from_iter`).  The contract
/// claims what the std documentation says: the string holds the characters
/// in order.
#[verifier::external_body]
fn string_from_chars(chars: Vec<char>) -> (r: String)
    ensures
        r@ == chars@,
{
    String::from_iter(chars)
}

} // verus!
