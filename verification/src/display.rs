//! The display: a bitmap of 64 by 32 pixels in the last 256 bytes of
//! memory, 8 bytes to a row, the most significant bit of a byte leftmost.

use vstd::prelude::*;
use vstd::string::*;

verus! {

/// The memory address that the index register `index` reaches at offset
/// `k`: memory has 4096 bytes, and addresses beyond wrap around.
pub open spec fn address(index: u16, k: int) -> int {
    (index + k) % 4096
}

/// Whether a sprite of `rows` rows anchored at pixel `(x, y)` reaches into
/// the display byte in row `row`, byte column `col`. A row of the sprite
/// lies in the byte that holds pixel `x` and, unless `x` is a multiple of
/// 8, in the byte to its right. What would lie right of byte column 7 or
/// below row 31 is not drawn: nothing wraps to the other edge.
pub open spec fn sprite_touches(x: int, y: int, rows: int, row: int, col: int) -> bool {
    &&& 0 <= row < 32
    &&& 0 <= col < 8
    &&& y <= row < y + rows
    &&& (col == x / 8 || (col == x / 8 + 1 && x % 8 != 0))
}

/// The bits that the sprite row `sprite` contributes to byte column `col`
/// when its leftmost pixel is at `x`: shifted right into the byte that
/// holds `x`, and the rest shifted left into the next byte.
pub open spec fn sprite_bits(sprite: u8, x: int, col: int) -> u8 {
    if col == x / 8 {
        sprite >> ((x % 8) as u8)
    } else {
        sprite << ((8 - x % 8) as u8)
    }
}

/// The display byte in row `row`, byte column `col`.
pub open spec fn display_byte(memory: Seq<u8>, row: int, col: int) -> u8 {
    memory[0xF00 + row * 8 + col]
}

/// The bits that drawing the sprite at `index` with its top left pixel
/// at `(x, y)` XORs into the display byte at `row`, `col`, which the
/// sprite touches.
pub open spec fn drawn_bits(memory: Seq<u8>, index: u16, x: int, y: int, row: int, col: int) -> u8 {
    sprite_bits(memory[address(index, row - y)], x, col)
}

/// Memory after drawing: every display byte that the sprite touches is
/// XORed with the sprite's bits for it; the sprite is read from memory as
/// it was before the draw.
pub open spec fn draw_memory(memory: Seq<u8>, index: u16, x: int, y: int, rows: int) -> Seq<u8> {
    Seq::new(
        4096,
        |a: int|
            if a >= 0xF00 && sprite_touches(x, y, rows, (a - 0xF00) / 8, (a - 0xF00) % 8) {
                memory[a] ^ drawn_bits(memory, index, x, y, (a - 0xF00) / 8, (a - 0xF00) % 8)
            } else {
                memory[a]
            },
    )
}

/// Whether drawing row `row` of the display turns off a pixel that was
/// on: a display byte that the sprite touches in that row has a set bit in
/// common with the sprite's bits for it.
pub open spec fn row_collides(memory: Seq<u8>, index: u16, x: int, y: int, row: int) -> bool {
    ||| display_byte(memory, row, x / 8) & drawn_bits(memory, index, x, y, row, x / 8) != 0
    ||| (x % 8 != 0 && x / 8 < 7 && display_byte(memory, row, x / 8 + 1) & drawn_bits(
        memory,
        index,
        x,
        y,
        row,
        x / 8 + 1,
    ) != 0)
}

/// Whether a draw turns off a pixel that was on, in any row that the
/// sprite reaches.
pub open spec fn draw_collides(memory: Seq<u8>, index: u16, x: int, y: int, rows: int) -> bool {
    exists|row: int|
        0 <= row < 32 && y <= row < y + rows && #[trigger] row_collides(memory, index, x, y, row)
}

/// Whether the pixel in column `col` of row `row` is lit.
pub open spec fn pixel_on(memory: Seq<u8>, col: int, row: int) -> bool {
    display_byte(memory, row, col / 8) & (0x80u8 >> ((col % 8) as u8)) != 0
}

/// Whether the sprite at `index`, of `rows` rows and with its top left
/// pixel at `(x, y)`, has a set pixel at column `col` of row `row`: bit 7
/// of a sprite row is its leftmost pixel.
pub open spec fn sprite_pixel(
    memory: Seq<u8>,
    index: u16,
    x: int,
    y: int,
    rows: int,
    col: int,
    row: int,
) -> bool {
    &&& y <= row < y + rows
    &&& x <= col < x + 8
    &&& memory[address(index, row - y)] & (0x80u8 >> ((col - x) as u8)) != 0
}

/// Draws the sprite of `rows` rows at `index` into the display with its
/// top left pixel at `(x mod 64, y mod 32)`, and says whether a pixel was
/// turned off. Only the anchor wraps: what would lie right of column 63 or
/// below row 31 is left out.
pub fn blit(memory: &mut [u8; 4096], index: u16, x: u8, y: u8, rows: u8) -> (hit: bool)
    ensures
        final(memory)@ == draw_memory(old(memory)@, index, x as int % 64, y as int % 32, rows as int),
        hit == draw_collides(old(memory)@, index, x as int % 64, y as int % 32, rows as int),
    no_unwind
{
    let x: u8 = x % 64;
    let y: u8 = y % 32;
    let col: usize = (x / 8) as usize;
    let shift: u8 = x % 8;
    let visible: usize = if (rows as usize) < 32 - y as usize {
        rows as usize
    } else {
        32 - y as usize
    };
    let mut sprite: [u8; 32] = [0, 0, 0, 0, 0, 0, 0, 0, 0, 0, 0, 0, 0, 0, 0, 0, 0, 0, 0, 0, 0, 0, 0, 0, 0, 0, 0, 0, 0, 0, 0, 0];
    let mut i: usize = 0;
    while i < visible
        invariant
            i <= visible <= 32,
            memory@ == old(memory)@,
            forall|k: int| 0 <= k < i ==> sprite@[k] == memory@[address(index, k)],
        decreases visible - i,
    {
        sprite[i] = memory[(index as usize + i) % 4096];
        i += 1;
    }
    let mut hit: bool = false;
    i = 0;
    while i < visible
        invariant
            i <= visible,
            visible == if rows < 32 - y {
                rows as int
            } else {
                32 - y
            },
            x < 64,
            y < 32,
            col == x / 8,
            shift == x % 8,
            forall|k: int| 0 <= k < visible ==> sprite@[k] == old(memory)@[address(index, k)],
            memory@ == draw_memory(old(memory)@, index, x as int, y as int, i as int),
            hit == draw_collides(old(memory)@, index, x as int, y as int, i as int),
        decreases visible - i,
    {
        let row: usize = y as usize + i;
        let offset: usize = 0xF00 + row * 8 + col;
        let bits: u8 = sprite[i] >> shift;
        let before: u8 = memory[offset];
        let mut row_hit: bool = before & bits != 0;
        memory[offset] = before ^ bits;
        if shift != 0 && col < 7 {
            let more: u8 = sprite[i] << (8 - shift);
            let next: u8 = memory[offset + 1];
            if next & more != 0 {
                row_hit = true;
            }
            memory[offset + 1] = next ^ more;
        }
        proof {
            let m0 = old(memory)@;
            assert(row_hit == row_collides(m0, index, x as int, y as int, row as int));
            assert(memory@ =~= draw_memory(m0, index, x as int, y as int, i + 1));
            if draw_collides(m0, index, x as int, y as int, i as int) {
                let r = choose|r: int|
                    0 <= r < 32 && y <= r < y + i && #[trigger] row_collides(
                        m0,
                        index,
                        x as int,
                        y as int,
                        r,
                    );
                assert(0 <= r < 32 && y <= r < y + i + 1);
            }
        }
        if row_hit {
            hit = true;
        }
        i += 1;
    }
    proof {
        let m0 = old(memory)@;
        assert(memory@ =~= draw_memory(m0, index, x as int, y as int, rows as int));
        assert(draw_collides(m0, index, x as int, y as int, i as int) == draw_collides(
            m0,
            index,
            x as int,
            y as int,
            rows as int,
        ));
    }
    hit
}

/// The colour of a lit pixel in a frame buffer, as `0RGB`.
pub const PIXEL_ON: u32 = 0x00AAAA00;

/// The colour of a dark pixel in a frame buffer.
pub const PIXEL_OFF: u32 = 0x00000000;

/// The display as one colour per pixel, row by row from the top, each row
/// from the left.
pub open spec fn frame_spec(memory: Seq<u8>) -> Seq<u32> {
    Seq::new(
        2048,
        |p: int|
            if pixel_on(memory, p % 64, p / 64) {
                PIXEL_ON
            } else {
                PIXEL_OFF
            },
    )
}

/// Row `row` of the display as text: two `#` for a lit pixel, two blanks
/// for a dark one.
pub open spec fn row_text(memory: Seq<u8>, row: int) -> Seq<char> {
    Seq::new(
        128,
        |j: int|
            if pixel_on(memory, j / 2, row) {
                '#'
            } else {
                ' '
            },
    )
}

/// The frame buffer of the display: 2048 colours, one per pixel.
pub fn frame_buffer(memory: &[u8; 4096]) -> (v: Vec<u32>)
    ensures
        v@ == frame_spec(memory@),
{
    let mut v: Vec<u32> = Vec::with_capacity(2048);
    let mut b: usize = 0;
    while b < 256
        invariant
            b <= 256,
            v@.len() == b * 8,
            forall|p: int| 0 <= p < b * 8 ==> v@[p] == frame_spec(memory@)[p],
        decreases 256 - b,
    {
        let byte: u8 = memory[0xF00 + b];
        let mut k: u8 = 0;
        while k < 8
            invariant
                b < 256,
                k <= 8,
                byte == memory@[0xF00 + b],
                v@.len() == b * 8 + k,
                forall|p: int| 0 <= p < b * 8 + k ==> v@[p] == frame_spec(memory@)[p],
            decreases 8 - k,
        {
            let mask: u8 = 0x80u8 >> k;
            proof {
                let p = b * 8 + k;
                assert(p / 64 == b / 8 && (p % 64) / 8 == b % 8 && (p % 64) % 8 == k);
                assert(0xF00 + (b / 8) * 8 + b % 8 == 0xF00 + b);
            }
            if byte & mask != 0 {
                v.push(PIXEL_ON);
            } else {
                v.push(PIXEL_OFF);
            }
            k += 1;
        }
        b += 1;
    }
    proof {
        assert(v@ =~= frame_spec(memory@));
    }
    v
}

/// The display as 32 lines of text, top row first.
pub fn frame_rows(memory: &[u8; 4096]) -> (rows: Vec<String>)
    ensures
        rows@.len() == 32,
        forall|r: int| 0 <= r < 32 ==> (#[trigger] rows@[r])@ == row_text(memory@, r),
{
    let mut rows: Vec<String> = Vec::with_capacity(32);
    let mut r: usize = 0;
    while r < 32
        invariant
            r <= 32,
            rows@.len() == r,
            forall|q: int| 0 <= q < r ==> (#[trigger] rows@[q])@ == row_text(memory@, q),
        decreases 32 - r,
    {
        let mut line: String = String::new();
        let mut c: usize = 0;
        while c < 64
            invariant
                r < 32,
                c <= 64,
                line@.len() == 2 * c,
                forall|j: int| 0 <= j < 2 * c ==> line@[j] == row_text(memory@, r as int)[j],
            decreases 64 - c,
        {
            let byte: u8 = memory[0xF00 + r * 8 + c / 8];
            let mask: u8 = 0x80u8 >> ((c % 8) as u8);
            proof {
                reveal_strlit("##");
                reveal_strlit("  ");
                assert((2 * c) / 2 == c && (2 * c + 1) / 2 == c);
            }
            if byte & mask != 0 {
                line.append("##");
            } else {
                line.append("  ");
            }
            c += 1;
        }
        proof {
            assert(line@ =~= row_text(memory@, r as int));
        }
        rows.push(line);
        r += 1;
    }
    rows
}

} // verus!
