//! Laws of the machine, proved from the model in `semantics`.

use vstd::prelude::*;
use crate::decode::{decode_spec, encode_spec, lemma_decode_encode};
use crate::display::{
    address, display_byte, draw_collides, draw_memory, drawn_bits, pixel_on, row_collides,
    sprite_pixel, sprite_touches,
};
use crate::machine::load_spec;
use crate::model::{Fault, Instruction, State, Status, StepError};
use crate::semantics::flag;

verus! {

impl State {
    /// The machine is running and the word at its program counter is that
    /// of `instr`.
    pub open spec fn next_is(self, instr: Instruction) -> bool {
        &&& instr.wf()
        &&& self.status() == Status::Running
        &&& self.fetch() == Some(encode_spec(instr) as u16)
    }
}

/// A step of a machine whose next instruction is `instr` executes `instr`:
/// it leaves the state that `execute` gives, or reports its fault.
pub proof fn lemma_step_executes(s: State, instr: Instruction, random: u8)
    requires
        s.next_is(instr),
    ensures
        s.step(random) == match s.execute(instr, random) {
            Ok(next) => (next, Ok::<Status, StepError>(next.status())),
            Err(fault) => (
                s,
                Err::<Status, StepError>(
                    StepError { fault, opcode: encode_spec(instr) as u16, pc: s.pc },
                ),
            ),
        },
{
    lemma_decode_encode(instr);
}

/// A step keeps a well-formed state well-formed.
pub proof fn lemma_step_preserves_wf(s: State, random: u8)
    requires
        s.wf(),
    ensures
        s.step(random).0.wf(),
{
    if !s.halted && s.waiting.is_none() && s.fetch().is_some() {
        let op = s.fetch().unwrap();
        if decode_spec(op).is_some() {
            crate::decode::lemma_decode_sound(op);
        }
    }
}

/// Load then add: after `6XNN` and then `7XMM`, `Vx` is `(NN + MM) mod 256`,
/// and `VF`, unless it is `Vx` itself, is what it was.
pub proof fn law_load_then_add(s: State, x: u8, nn: u8, mm: u8, r1: u8, r2: u8)
    requires
        s.wf(),
        s.next_is(Instruction::LdByte { x, byte: nn }),
        s.step(r1).0.next_is(Instruction::AddByte { x, byte: mm }),
    ensures
        s.step(r1).0.step(r2).0.regs[x as int] == (nn + mm) % 256,
        x != 15 ==> s.step(r1).0.step(r2).0.regs[15] == s.regs[15],
        s.step(r1).0.step(r2).0.pc == s.pc + 4,
{
    lemma_step_executes(s, Instruction::LdByte { x, byte: nn }, r1);
    lemma_step_executes(s.step(r1).0, Instruction::AddByte { x, byte: mm }, r2);
}

/// Addition flag: `8XY4` sets `VF` to 1 if `Vx + Vy` exceeds 255 and to 0
/// if not, and `Vx`, unless it is `VF` itself, to the sum modulo 256.
pub proof fn law_add_sets_carry(s: State, x: u8, y: u8, random: u8)
    requires
        s.wf(),
        s.next_is(Instruction::AddReg { x, y }),
    ensures
        s.step(random).0.regs[15] == flag(s.regs[x as int] + s.regs[y as int] > 255),
        x != 15 ==> s.step(random).0.regs[x as int] == (s.regs[x as int] + s.regs[y as int])
            % 256,
{
    lemma_step_executes(s, Instruction::AddReg { x, y }, random);
}

/// Subtraction flag: `8XY5` sets `VF` to 1 if `Vx >= Vy` and to 0 if not,
/// and `Vx`, unless it is `VF` itself, to the difference modulo 256.
pub proof fn law_sub_sets_no_borrow(s: State, x: u8, y: u8, random: u8)
    requires
        s.wf(),
        s.next_is(Instruction::Sub { x, y }),
    ensures
        s.step(random).0.regs[15] == flag(s.regs[x as int] >= s.regs[y as int]),
        x != 15 ==> s.step(random).0.regs[x as int] == (s.regs[x as int] - s.regs[y as int])
            % 256,
{
    lemma_step_executes(s, Instruction::Sub { x, y }, random);
}

/// Reverse subtraction flag: `8XY7` sets `VF` to 1 if `Vy >= Vx` and to 0
/// if not, and `Vx`, unless it is `VF` itself, to `Vy - Vx` modulo 256.
pub proof fn law_subn_sets_no_borrow(s: State, x: u8, y: u8, random: u8)
    requires
        s.wf(),
        s.next_is(Instruction::Subn { x, y }),
    ensures
        s.step(random).0.regs[15] == flag(s.regs[y as int] >= s.regs[x as int]),
        x != 15 ==> s.step(random).0.regs[x as int] == (s.regs[y as int] - s.regs[x as int])
            % 256,
{
    lemma_step_executes(s, Instruction::Subn { x, y }, random);
}

/// Shift right: `8XY6` sets `VF` to the low bit of `Vy` and `Vx`, unless it
/// is `VF` itself, to half of `Vy`, whatever `Vx` was. With `Vy == 0x55`
/// that is `VF == 1` and `Vx == 0x2A`.
pub proof fn law_shift_right(s: State, x: u8, y: u8, random: u8)
    requires
        s.wf(),
        s.next_is(Instruction::Shr { x, y }),
    ensures
        s.step(random).0.regs[15] == s.regs[y as int] % 2,
        x != 15 ==> s.step(random).0.regs[x as int] == s.regs[y as int] / 2,
        s.regs[y as int] == 0x55 ==> s.step(random).0.regs[15] == 1 && (x != 15 ==> s.step(
            random,
        ).0.regs[x as int] == 0x2A),
{
    lemma_step_executes(s, Instruction::Shr { x, y }, random);
}

/// Shift left: `8XYE` sets `VF` to the high bit of `Vy` and `Vx`, unless it
/// is `VF` itself, to twice `Vy` modulo 256, whatever `Vx` was. With
/// `Vy == 0x80` that is `VF == 1` and `Vx == 0`; with `Vy == 0x7A` it is
/// `VF == 0` and `Vx == 0xF4`.
pub proof fn law_shift_left(s: State, x: u8, y: u8, random: u8)
    requires
        s.wf(),
        s.next_is(Instruction::Shl { x, y }),
    ensures
        s.step(random).0.regs[15] == s.regs[y as int] / 128,
        x != 15 ==> s.step(random).0.regs[x as int] == (s.regs[y as int] * 2) % 256,
        s.regs[y as int] == 0x80 ==> s.step(random).0.regs[15] == 1 && (x != 15 ==> s.step(
            random,
        ).0.regs[x as int] == 0),
        s.regs[y as int] == 0x7A ==> s.step(random).0.regs[15] == 0 && (x != 15 ==> s.step(
            random,
        ).0.regs[x as int] == 0xF4),
{
    lemma_step_executes(s, Instruction::Shl { x, y }, random);
}

/// Stack round trip: a call stacks the address of the instruction behind
/// it; a return from any later state whose stack is the one the call left
/// goes to that address and leaves the stack as it was before the call.
pub proof fn law_call_then_return(s: State, addr: u16, t: State, r1: u8, r2: u8)
    requires
        s.wf(),
        s.next_is(Instruction::Call { addr }),
        s.stack.len() < 16,
        t.wf(),
        t.next_is(Instruction::Ret),
        t.stack == s.step(r1).0.stack,
    ensures
        s.step(r1).0.pc == addr,
        s.step(r1).0.stack == s.stack.push((s.pc + 2) as u16),
        s.step(r1).1 == Ok::<Status, StepError>(Status::Running),
        t.step(r2).0.pc == s.pc + 2,
        t.step(r2).0.stack == s.stack,
{
    lemma_step_executes(s, Instruction::Call { addr }, r1);
    lemma_step_executes(t, Instruction::Ret, r2);
    assert(s.stack.push((s.pc + 2) as u16).drop_last() =~= s.stack);
}

/// The call stack holds sixteen return addresses: a call on a full stack
/// and a return on an empty one are faults that leave the machine as it
/// was.
pub proof fn law_stack_limits(s: State, addr: u16, random: u8)
    requires
        s.wf(),
    ensures
        s.next_is(Instruction::Call { addr }) && s.stack.len() == 16 ==> s.step(random) == (
            s,
            Err::<Status, StepError>(
                StepError {
                    fault: Fault::StackOverflow,
                    opcode: (0x2000 + addr) as u16,
                    pc: s.pc,
                },
            ),
        ),
        s.next_is(Instruction::Ret) && s.stack.len() == 0 ==> s.step(random) == (
            s,
            Err::<Status, StepError>(
                StepError { fault: Fault::StackUnderflow, opcode: 0x00EE, pc: s.pc },
            ),
        ),
{
    if s.next_is(Instruction::Call { addr }) {
        lemma_step_executes(s, Instruction::Call { addr }, random);
    }
    if s.next_is(Instruction::Ret) {
        lemma_step_executes(s, Instruction::Ret, random);
    }
}

/// Two bytes with a set bit in common have one of the eight pixels in
/// common.
proof fn lemma_common_pixel(m: u8, b: u8)
    by (bit_vector)
    requires
        m & b != 0,
    ensures
        (m & (0x80u8 >> 0u8) != 0 && b & (0x80u8 >> 0u8) != 0) || (m & (0x80u8 >> 1u8) != 0 && b & (
        0x80u8 >> 1u8) != 0) || (m & (0x80u8 >> 2u8) != 0 && b & (0x80u8 >> 2u8) != 0) || (m & (
        0x80u8 >> 3u8) != 0 && b & (0x80u8 >> 3u8) != 0) || (m & (0x80u8 >> 4u8) != 0 && b & (0x80u8
            >> 4u8) != 0) || (m & (0x80u8 >> 5u8) != 0 && b & (0x80u8 >> 5u8) != 0) || (m & (0x80u8
            >> 6u8) != 0 && b & (0x80u8 >> 6u8) != 0) || (m & (0x80u8 >> 7u8) != 0 && b & (0x80u8
            >> 7u8) != 0),
{
}

/// Two bytes with a pixel in common have a set bit in common.
proof fn lemma_pixel_is_common(m: u8, b: u8, k: u8)
    by (bit_vector)
    requires
        k < 8,
        m & (0x80u8 >> k) != 0,
        b & (0x80u8 >> k) != 0,
    ensures
        m & b != 0,
{
}

/// Pixel `k` of a sprite row shifted right by `s` is its pixel `k - s`.
proof fn lemma_shifted_right(sprite: u8, s: u8, k: u8)
    by (bit_vector)
    requires
        s < 8,
        k < 8,
    ensures
        ((sprite >> s) & (0x80u8 >> k) != 0) == (k >= s && sprite & (0x80u8 >> ((k - s) as u8))
            != 0),
{
}

/// Pixel `k` of a sprite row shifted left by `8 - s` is its pixel
/// `k + 8 - s`.
proof fn lemma_shifted_left(sprite: u8, s: u8, k: u8)
    by (bit_vector)
    requires
        0 < s < 8,
        k < 8,
    ensures
        ((sprite << ((8 - s) as u8)) & (0x80u8 >> k) != 0) == (k < s && sprite & (0x80u8 >> ((k + 8
            - s) as u8)) != 0),
{
}

/// The sprite's bits for a display byte that it touches have pixel `k`
/// exactly where the sprite has a pixel in that column.
proof fn lemma_drawn_bits_pixel(
    memory: Seq<u8>,
    index: u16,
    x: int,
    y: int,
    rows: int,
    row: int,
    c: int,
    k: u8,
)
    requires
        0 <= x < 64,
        sprite_touches(x, y, rows, row, c),
        k < 8,
    ensures
        (drawn_bits(memory, index, x, y, row, c) & (0x80u8 >> k) != 0) == sprite_pixel(
            memory,
            index,
            x,
            y,
            rows,
            c * 8 + k,
            row,
        ),
{
    let s = (x % 8) as u8;
    let sprite = memory[address(index, row - y)];
    if c == x / 8 {
        assert(c * 8 + k - x == k - s);
        lemma_shifted_right(sprite, s, k);
    } else {
        assert(c * 8 + k - x == k + 8 - s);
        lemma_shifted_left(sprite, s, k);
    }
}

/// A pixel of the XOR of two bytes is lit if it is lit in one of them and
/// not in the other.
proof fn lemma_xor_pixel(m: u8, b: u8, k: u8)
    by (bit_vector)
    requires
        k < 8,
    ensures
        ((m ^ b) & (0x80u8 >> k) != 0) == ((m & (0x80u8 >> k) != 0) != (b & (0x80u8 >> k) != 0)),
{
}

/// Drawing is XOR, pixel by pixel: after a draw a pixel of the display is
/// lit exactly if it was lit before or the sprite has a pixel there, and
/// not both. A sprite pixel that would lie right of column 63 or below
/// row 31 is on no pixel of the display.
pub proof fn law_draw_xors_pixels(
    memory: Seq<u8>,
    index: u16,
    x: int,
    y: int,
    rows: int,
    col: int,
    row: int,
)
    requires
        memory.len() == 4096,
        0 <= x < 64,
        0 <= y < 32,
        0 <= rows,
        0 <= col < 64,
        0 <= row < 32,
    ensures
        pixel_on(draw_memory(memory, index, x, y, rows), col, row) == (pixel_on(memory, col, row)
            != sprite_pixel(memory, index, x, y, rows, col, row)),
{
    let c = col / 8;
    let k = (col % 8) as u8;
    let a = 0xF00 + row * 8 + c;
    assert((a - 0xF00) / 8 == row && (a - 0xF00) % 8 == c);
    assert(c * 8 + k == col);
    if sprite_touches(x, y, rows, row, c) {
        lemma_drawn_bits_pixel(memory, index, x, y, rows, row, c, k);
        lemma_xor_pixel(memory[a], drawn_bits(memory, index, x, y, row, c), k);
    } else {
        assert(!sprite_pixel(memory, index, x, y, rows, col, row));
    }
}

/// A display byte and the sprite's bits for it, with a set bit in common,
/// give a lit pixel under a sprite pixel.
proof fn lemma_collision_has_pixel(
    memory: Seq<u8>,
    index: u16,
    x: int,
    y: int,
    rows: int,
    row: int,
    c: int,
)
    requires
        0 <= x < 64,
        sprite_touches(x, y, rows, row, c),
        display_byte(memory, row, c) & drawn_bits(memory, index, x, y, row, c) != 0,
    ensures
        exists|col: int|
            0 <= col < 64 && pixel_on(memory, col, row) && #[trigger] sprite_pixel(
                memory,
                index,
                x,
                y,
                rows,
                col,
                row,
            ),
{
    let m = display_byte(memory, row, c);
    let b = drawn_bits(memory, index, x, y, row, c);
    lemma_common_pixel(m, b);
    let k: u8 = if m & (0x80u8 >> 0u8) != 0 && b & (0x80u8 >> 0u8) != 0 {
        0
    } else if m & (0x80u8 >> 1u8) != 0 && b & (0x80u8 >> 1u8) != 0 {
        1
    } else if m & (0x80u8 >> 2u8) != 0 && b & (0x80u8 >> 2u8) != 0 {
        2
    } else if m & (0x80u8 >> 3u8) != 0 && b & (0x80u8 >> 3u8) != 0 {
        3
    } else if m & (0x80u8 >> 4u8) != 0 && b & (0x80u8 >> 4u8) != 0 {
        4
    } else if m & (0x80u8 >> 5u8) != 0 && b & (0x80u8 >> 5u8) != 0 {
        5
    } else if m & (0x80u8 >> 6u8) != 0 && b & (0x80u8 >> 6u8) != 0 {
        6
    } else {
        7
    };
    assert(m & (0x80u8 >> k) != 0 && b & (0x80u8 >> k) != 0);
    lemma_drawn_bits_pixel(memory, index, x, y, rows, row, c, k);
    let col = c * 8 + k;
    assert(col / 8 == c && col % 8 == k);
    assert(pixel_on(memory, col, row));
    assert(sprite_pixel(memory, index, x, y, rows, col, row));
}

/// Collision is a pixel turned off: a draw reports a collision exactly if
/// some pixel of the display is lit where the sprite has a pixel.
pub proof fn law_collision_is_pixel_turned_off(
    memory: Seq<u8>,
    index: u16,
    x: int,
    y: int,
    rows: int,
)
    requires
        memory.len() == 4096,
        0 <= x < 64,
        0 <= y < 32,
        0 <= rows,
    ensures
        draw_collides(memory, index, x, y, rows) == (exists|col: int, row: int|
            0 <= col < 64 && 0 <= row < 32 && pixel_on(memory, col, row) && #[trigger] sprite_pixel(
                memory,
                index,
                x,
                y,
                rows,
                col,
                row,
            )),
{
    if draw_collides(memory, index, x, y, rows) {
        let row = choose|row: int|
            0 <= row < 32 && y <= row < y + rows && #[trigger] row_collides(
                memory,
                index,
                x,
                y,
                row,
            );
        let c = if display_byte(memory, row, x / 8) & drawn_bits(memory, index, x, y, row, x / 8)
            != 0 {
            x / 8
        } else {
            x / 8 + 1
        };
        lemma_collision_has_pixel(memory, index, x, y, rows, row, c);
        let col = choose|col: int|
            0 <= col < 64 && pixel_on(memory, col, row) && #[trigger] sprite_pixel(
                memory,
                index,
                x,
                y,
                rows,
                col,
                row,
            );
        assert(0 <= col < 64 && 0 <= row < 32 && pixel_on(memory, col, row) && sprite_pixel(
            memory,
            index,
            x,
            y,
            rows,
            col,
            row,
        ));
    }
    if exists|col: int, row: int|
        0 <= col < 64 && 0 <= row < 32 && pixel_on(memory, col, row) && #[trigger] sprite_pixel(
            memory,
            index,
            x,
            y,
            rows,
            col,
            row,
        ) {
        let (col, row) = choose|col: int, row: int|
            0 <= col < 64 && 0 <= row < 32 && pixel_on(memory, col, row) && #[trigger] sprite_pixel(
                memory,
                index,
                x,
                y,
                rows,
                col,
                row,
            );
        let c = col / 8;
        let k = (col % 8) as u8;
        assert(c * 8 + k == col);
        assert(sprite_touches(x, y, rows, row, c));
        lemma_drawn_bits_pixel(memory, index, x, y, rows, row, c, k);
        lemma_pixel_is_common(
            display_byte(memory, row, c),
            drawn_bits(memory, index, x, y, row, c),
            k,
        );
        assert(row_collides(memory, index, x, y, row));
    }
}

/// XOR with the same bits twice gives back the byte.
proof fn lemma_xor_twice(m: u8, b: u8)
    by (bit_vector)
    ensures
        (m ^ b) ^ b == m,
{
}

/// Drawing twice: where the first draw leaves the anchor registers and the
/// sprite's own bytes as they were, drawing the same sprite at the same
/// place again restores the memory, the display with it, to what it was
/// before the first draw. Each draw sets `VF` by its own collisions. The
/// condition holds whenever neither `Vx` nor `Vy` is `VF` and the sprite
/// lies outside the display bitmap.
pub proof fn law_draw_twice(s: State, x: u8, y: u8, rows: u8)
    requires
        s.wf(),
        x < 16,
        y < 16,
        s.draw(x, y, rows).regs[x as int] % 64 == s.regs[x as int] % 64,
        s.draw(x, y, rows).regs[y as int] % 32 == s.regs[y as int] % 32,
        forall|i: int|
            0 <= i < rows && s.regs[y as int] % 32 + i < 32 ==> s.draw(x, y, rows).memory[address(
                s.index,
                i,
            )] == s.memory[address(s.index, i)],
    ensures
        s.draw(x, y, rows).draw(x, y, rows).memory == s.memory,
        s.draw(x, y, rows).regs[15] == flag(
            draw_collides(
                s.memory,
                s.index,
                s.regs[x as int] as int % 64,
                s.regs[y as int] as int % 32,
                rows as int,
            ),
        ),
        s.draw(x, y, rows).draw(x, y, rows).regs[15] == flag(
            draw_collides(
                s.draw(x, y, rows).memory,
                s.index,
                s.regs[x as int] as int % 64,
                s.regs[y as int] as int % 32,
                rows as int,
            ),
        ),
{
    let px = s.regs[x as int] as int % 64;
    let py = s.regs[y as int] as int % 32;
    let s1 = s.draw(x, y, rows);
    let s2 = s1.draw(x, y, rows);
    assert(s1.memory == draw_memory(s.memory, s.index, px, py, rows as int));
    assert(s2.memory == draw_memory(s1.memory, s.index, px, py, rows as int));
    assert forall|a: int| 0 <= a < 4096 implies s2.memory[a] == s.memory[a] by {
        let row = (a - 0xF00) / 8;
        let col = (a - 0xF00) % 8;
        if a >= 0xF00 && sprite_touches(px, py, rows as int, row, col) {
            let i = row - py;
            assert(s1.memory[address(s.index, i)] == s.memory[address(s.index, i)]);
            let b = drawn_bits(s.memory, s.index, px, py, row, col);
            assert(drawn_bits(s1.memory, s.index, px, py, row, col) == b);
            lemma_xor_twice(s.memory[a], b);
        }
    }
    assert(s2.memory =~= s.memory);
}

/// In particular, a draw by `DXYN` with neither operand `VF`, of a sprite
/// that lies below the display bitmap, followed by the same instruction
/// again, leaves the display as it was.
pub proof fn law_draw_twice_restores_display(s: State, x: u8, y: u8, rows: u8)
    requires
        s.wf(),
        x < 15,
        y < 15,
        s.index + rows <= 0xF00,
    ensures
        s.draw(x, y, rows).draw(x, y, rows).memory == s.memory,
{
    assert forall|i: int| 0 <= i < rows implies s.draw(x, y, rows).memory[address(s.index, i)]
        == s.memory[address(s.index, i)] by {
        assert(address(s.index, i) == s.index + i);
    }
    law_draw_twice(s, x, y, rows);
}

/// The offset `k` is found again from the address it leads to.
proof fn lemma_address_offset(index: u16, k: int)
    requires
        0 <= k < 4096,
    ensures
        0 <= address(index, k) < 4096,
        (address(index, k) - index) % 4096 == k,
{
    let a = (index + k) % 4096;
    let q = (index + k) / 4096;
    assert(index + k == q * 4096 + a);
    assert(a - index == k - q * 4096);
    assert((k - q * 4096) % 4096 == k) by (nonlinear_arith)
        requires
            0 <= k < 4096,
    ;
}

/// `FX55` leaves `V0..=Vx` in memory at `I..`, and moves `I` on.
proof fn lemma_store_regs(s: State, x: u8, random: u8)
    requires
        s.wf(),
        s.next_is(Instruction::StoreRegs { x }),
    ensures
        forall|k: int| 0 <= k <= x ==> s.step(random).0.memory[address(s.index, k)] == s.regs[k],
        s.step(random).0.index == (s.index + x + 1) % 0x10000,
{
    lemma_step_executes(s, Instruction::StoreRegs { x }, random);
    assert forall|k: int| 0 <= k <= x implies s.step(random).0.memory[address(s.index, k)]
        == s.regs[k] by {
        lemma_address_offset(s.index, k);
    }
}

/// Register block round trip: `FX55` stores `V0..=Vx` at `I`; `FX65`, from
/// any later state with that memory and that `I`, whatever its registers
/// hold, brings the stored values back. Each of the two moves `I` on by
/// `x + 1`.
pub proof fn law_store_then_load(s: State, x: u8, t: State, r1: u8, r2: u8)
    requires
        s.wf(),
        s.next_is(Instruction::StoreRegs { x }),
        t.wf(),
        t.next_is(Instruction::LoadRegs { x }),
        t.memory == s.step(r1).0.memory,
        t.index == s.index,
    ensures
        forall|k: int| 0 <= k <= x ==> t.step(r2).0.regs[k] == s.regs[k],
        forall|k: int| x < k < 16 ==> t.step(r2).0.regs[k] == t.regs[k],
        s.step(r1).0.index == (s.index + x + 1) % 0x10000,
        t.step(r2).0.index == (t.index + x + 1) % 0x10000,
{
    lemma_store_regs(s, x, r1);
    lemma_step_executes(t, Instruction::LoadRegs { x }, r2);
}

/// Self-jump halt: a jump to its own address halts the machine. The step
/// that executes it changes nothing else and reports the halt; every run
/// that begins with it ends there; and a halted machine executes nothing.
pub proof fn law_self_jump_halts(s: State, randoms: Seq<u8>, random: u8)
    requires
        s.wf(),
        s.next_is(Instruction::Jp { addr: s.pc }),
    ensures
        s.step(random) == (
            State { halted: true, ..s },
            Ok::<Status, StepError>(Status::Halted),
        ),
        randoms.len() > 0 ==> s.run(randoms) == (
            State { halted: true, ..s },
            Ok::<Status, StepError>(Status::Halted),
        ),
        s.step(random).0.step(random) == (
            State { halted: true, ..s },
            Ok::<Status, StepError>(Status::Halted),
        ),
{
    lemma_step_executes(s, Instruction::Jp { addr: s.pc }, random);
    if randoms.len() > 0 {
        lemma_step_executes(s, Instruction::Jp { addr: s.pc }, randoms[0]);
    }
}

/// A machine that has halted or waits for a key is left as it is by every
/// step and every run.
pub proof fn law_stopped_machine_stays(s: State, randoms: Seq<u8>)
    requires
        s.status() != Status::Running,
    ensures
        s.run(randoms) == (s, Ok::<Status, StepError>(s.status())),
{
}

/// Loading keeps the reserved regions: an image that is accepted changes
/// no byte of the font region below the program start and none of the
/// display bitmap.
pub proof fn law_load_keeps_font_and_display(s: State, rom: Seq<u8>)
    requires
        s.wf(),
        load_spec(s, rom).is_ok(),
    ensures
        forall|a: int|
            0 <= a < 0x200 || 0xF00 <= a < 0x1000 ==> load_spec(s, rom).unwrap().memory[a]
                == s.memory[a],
        forall|i: int| 0 <= i < rom.len() ==> load_spec(s, rom).unwrap().memory[0x200 + i] == rom[i],
{
}

/// Instructions set and read the timers and never count them down: only
/// `FX15` changes the delay timer and only `FX18` the sound timer.
pub proof fn law_timers_change_only_when_set(s: State, instr: Instruction, random: u8)
    requires
        s.wf(),
        s.execute(instr, random).is_ok(),
    ensures
        !(instr is LdDelay) ==> s.execute(instr, random).unwrap().delay_timer == s.delay_timer,
        !(instr is LdSound) ==> s.execute(instr, random).unwrap().sound_timer == s.sound_timer,
        s.tick().delay_timer <= s.delay_timer,
        s.tick().sound_timer <= s.sound_timer,
{
}

/// A fault changes nothing: a step that reports an error leaves the state
/// as it was, so the same step reports the same error again.
pub proof fn law_fault_leaves_state(s: State, random: u8)
    requires
        s.step(random).1.is_err(),
    ensures
        s.step(random).0 == s,
        s.step(random).1.unwrap_err().pc == s.pc,
{
}

} // verus!
