//! The machine itself: its state, how a program is loaded, and the
//! operations a driver performs between instructions.

use vstd::prelude::*;
use vstd::string::*;
use crate::decode::decode;
use crate::disasm::{disasm_inst, disasm_text};
use crate::display::{address, blit, frame_buffer, frame_rows, frame_spec, row_text};
use crate::model::{Fault, Instruction, State, Status, StepError};
use crate::rng::random_byte;
use crate::semantics::{lemma_run_split, lemma_same_state};
use crate::text::{append_hex, chars_of, decimal_spec, hex_text, parse_decimal, trim, trim_spec};

verus! {

/// The glyphs of the hexadecimal digits 0 to F, five bytes each, four
/// pixels wide.
pub const CHIP8_FONTSET: [u8; 80] = [
    0xF0, 0x90, 0x90, 0x90, 0xF0,
    0x20, 0x60, 0x20, 0x20, 0x70,
    0xF0, 0x10, 0xF0, 0x80, 0xF0,
    0xF0, 0x10, 0xF0, 0x10, 0xF0,
    0x90, 0x90, 0xF0, 0x10, 0x10,
    0xF0, 0x80, 0xF0, 0x10, 0xF0,
    0xF0, 0x80, 0xF0, 0x90, 0xF0,
    0xF0, 0x10, 0x20, 0x40, 0x40,
    0xF0, 0x90, 0xF0, 0x90, 0xF0,
    0xF0, 0x90, 0xF0, 0x10, 0xF0,
    0xF0, 0x90, 0xF0, 0x90, 0x90,
    0xE0, 0x90, 0xE0, 0x90, 0xE0,
    0xF0, 0x80, 0x80, 0x80, 0xF0,
    0xE0, 0x90, 0x90, 0x90, 0xE0,
    0xF0, 0x80, 0xF0, 0x80, 0xF0,
    0xF0, 0x80, 0xF0, 0x80, 0x80,
];

/// The state of a machine that was just made: the font at the bottom of
/// memory, everything else zero, no key down, and the program counter at
/// the program's first instruction.
pub open spec fn initial_state() -> State {
    State {
        regs: Seq::new(16, |i: int| 0u8),
        index: 0,
        pc: 0x200,
        stack: Seq::empty(),
        delay_timer: 0,
        sound_timer: 0,
        memory: Seq::new(
            4096,
            |a: int|
                if a < 80 {
                    CHIP8_FONTSET@[a]
                } else {
                    0u8
                },
        ),
        keys: Seq::new(16, |i: int| false),
        halted: false,
        waiting: None,
    }
}

/// The bytes `bytes[from..]` as text: a blank and two hexadecimal digits
/// for each.
pub open spec fn bytes_text(bytes: Seq<u8>, from: int) -> Seq<char>
    decreases bytes.len() - from,
{
    if from < 0 || from >= bytes.len() {
        Seq::empty()
    } else {
        " "@ + hex_text(bytes[from] as nat, 2) + bytes_text(bytes, from + 1)
    }
}

/// The one-line summary of a state: the registers between brackets, then
/// the program counter, the depth of the call stack and the index
/// register, each as four hexadecimal digits.
pub open spec fn state_text(s: State) -> Seq<char> {
    "["@ + bytes_text(s.regs, 0) + " ] PC: "@ + hex_text(s.pc as nat, 4) + ", SP: "@ + hex_text(
        s.stack.len(),
        4,
    ) + ", I: "@ + hex_text(s.index as nat, 4)
}

/// The line that traces the next step: the program counter and the word
/// found there, four hexadecimal digits each, and the word's disassembly;
/// nothing where the program counter leaves no room for a word.
pub open spec fn trace_text(s: State) -> Option<Seq<char>> {
    match s.fetch() {
        Some(op) => Some(
            hex_text(s.pc as nat, 4) + ": "@ + hex_text(op as nat, 4) + " "@ + disasm_text(op),
        ),
        None => None,
    }
}

/// Line `row` of a memory dump: the address of its first byte as `0x` and
/// six hexadecimal digits, a colon, and its eight bytes.
pub open spec fn dump_row_text(memory: Seq<u8>, row: int) -> Seq<char> {
    "0x"@ + hex_text((row * 8) as nat, 6) + ":"@ + bytes_text(
        memory.subrange(row * 8, row * 8 + 8),
        0,
    )
}

/// The key that the text `input` names: a decimal number from 0 to 15,
/// with white space allowed around it.
pub open spec fn key_spec(input: Seq<char>) -> Option<u8> {
    match decimal_spec(trim_spec(input), 255) {
        Some(n) => if n <= 15 {
            Some(n as u8)
        } else {
            None
        },
        None => None,
    }
}

/// Appends `bytes` to `out`, each as a blank and two hexadecimal digits.
fn append_bytes(out: &mut String, bytes: &[u8])
    ensures
        final(out)@ == old(out)@ + bytes_text(bytes@, 0),
{
    let mut i: usize = 0;
    while i < bytes.len()
        invariant
            i <= bytes@.len(),
            old(out)@ + bytes_text(bytes@, 0) == out@ + bytes_text(bytes@, i as int),
        decreases bytes@.len() - i,
    {
        let ghost before = out@;
        out.append(" ");
        append_hex(out, bytes[i] as u32, 2);
        proof {
            assert(before + (" "@ + hex_text(bytes@[i as int] as nat, 2) + bytes_text(
                bytes@,
                i + 1,
            )) =~= out@ + bytes_text(bytes@, i + 1));
        }
        i += 1;
    }
    proof {
        assert(out@ + bytes_text(bytes@, i as int) =~= out@);
    }
}

/// Why a program image was refused.
#[derive(Clone, Copy, Debug, PartialEq, Eq, Structural)]
pub enum LoadError {
    /// The image has an odd number of bytes: every instruction has two.
    OddLength,
    /// The image does not fit between the program start and the display.
    TooLarge,
}

/// The largest program image in bytes: what lies between the program
/// start and the display bitmap.
pub const MAX_ROM_SIZE: usize = 0xD00;

/// The state after loading the image `rom`, or why it is refused: the
/// image is copied as it is to the program start, and nothing else changes.
pub open spec fn load_spec(s: State, rom: Seq<u8>) -> Result<State, LoadError> {
    if rom.len() % 2 == 1 {
        Err(LoadError::OddLength)
    } else if rom.len() > 0xD00 {
        Err(LoadError::TooLarge)
    } else {
        Ok(
            State {
                memory: Seq::new(
                    4096,
                    |a: int|
                        if 0x200 <= a < 0x200 + rom.len() {
                            rom[a - 0x200]
                        } else {
                            s.memory[a]
                        },
                ),
                ..s
            },
        )
    }
}

/// A CHIP-8 machine. Contracts speak of it through its view, a [`State`];
/// the call stack never holds more than sixteen return addresses.
#[derive(Debug, PartialEq, Eq)]
pub struct Chip8 {
    pub(crate) regs: [u8; 16],
    pub(crate) index: u16,
    pub(crate) pc: u16,
    pub(crate) sp: usize,
    pub(crate) stack: [u16; 16],
    pub(crate) sound_timer: u8,
    pub(crate) delay_timer: u8,
    pub(crate) memory: [u8; 4096],
    pub(crate) keys: [bool; 16],
    pub(crate) halt: bool,
    pub(crate) wait: Option<u8>,
}

impl View for Chip8 {
    type V = State;

    closed spec fn view(&self) -> State {
        State {
            regs: self.regs@,
            index: self.index,
            pc: self.pc,
            stack: self.stack@.take(self.sp as int),
            delay_timer: self.delay_timer,
            sound_timer: self.sound_timer,
            memory: self.memory@,
            keys: self.keys@,
            halted: self.halt,
            waiting: self.wait,
        }
    }
}

impl Chip8 {
    #[verifier::type_invariant]
    pub(crate) closed spec fn inv(&self) -> bool {
        &&& self.sp <= 16
        &&& (self.wait matches Some(x) ==> x < 16 && self.pc <= 4094 && !self.halt)
    }

    /// Whether all but the registers and the memory is as in `other`.
    pub(crate) closed spec fn same_control(&self, other: &Chip8) -> bool {
        &&& self.index == other.index
        &&& self.pc == other.pc
        &&& self.sp == other.sp
        &&& self.stack == other.stack
        &&& self.sound_timer == other.sound_timer
        &&& self.delay_timer == other.delay_timer
        &&& self.keys == other.keys
        &&& self.halt == other.halt
        &&& self.wait == other.wait
    }

    /// A machine with the font in place and nothing loaded.
    pub fn new() -> (chip: Self)
        ensures
            chip@ == initial_state(),
            chip@.wf(),
    {
        let mut memory: [u8; 4096] = [0u8; 4096];
        let mut i: usize = 0;
        while i < 80
            invariant
                i <= 80,
                forall|a: int| 0 <= a < i ==> memory@[a] == CHIP8_FONTSET@[a],
                forall|a: int| i <= a < 4096 ==> memory@[a] == 0,
            decreases 80 - i,
        {
            memory[i] = CHIP8_FONTSET[i];
            i += 1;
        }
        let chip = Chip8 {
            regs: [0u8; 16],
            index: 0,
            pc: 0x200,
            sp: 0,
            stack: [0u16; 16],
            sound_timer: 0,
            delay_timer: 0,
            memory,
            keys: [false; 16],
            halt: false,
            wait: None,
        };
        proof {
            assert(chip@.regs =~= initial_state().regs);
            assert(chip@.memory =~= initial_state().memory);
            assert(chip@.keys =~= initial_state().keys);
            assert(chip@.stack =~= initial_state().stack);
        }
        chip
    }

    /// Loads the program image `rom` at the program start. An image of odd
    /// length, or one that would reach the display bitmap, is refused and
    /// leaves the machine as it was.
    pub fn load_rom(&mut self, rom: &[u8]) -> (r: Result<(), LoadError>)
        ensures
            match load_spec(old(self)@, rom@) {
                Ok(s) => r.is_ok() && final(self)@ == s,
                Err(e) => r == Err::<(), LoadError>(e) && final(self)@ == old(self)@,
            },
            final(self)@.wf(),
    {
        proof {
            use_type_invariant(&*self);
        }
        if rom.len() % 2 == 1 {
            return Err(LoadError::OddLength);
        }
        if rom.len() > MAX_ROM_SIZE {
            return Err(LoadError::TooLarge);
        }
        let mut i: usize = 0;
        while i < rom.len()
            invariant
                i <= rom.len() <= 0xD00,
                self.inv(),
                self.regs == old(self).regs,
                self.same_control(old(self)),
                forall|a: int|
                    0 <= a < 4096 ==> self.memory@[a] == if 0x200 <= a < 0x200 + i {
                        rom@[a - 0x200]
                    } else {
                        old(self).memory@[a]
                    },
            decreases rom.len() - i,
        {
            self.memory[0x200 + i] = rom[i];
            i += 1;
        }
        proof {
            assert(self@.memory =~= load_spec(old(self)@, rom@).unwrap().memory);
        }
        Ok(())
    }

    /// The registers `V0..VF`.
    pub fn regs(&self) -> (r: [u8; 16])
        ensures
            r@ == self@.regs,
    {
        self.regs
    }

    /// The index register `I`.
    pub fn index(&self) -> (r: u16)
        ensures
            r == self@.index,
    {
        self.index
    }

    /// The program counter.
    pub fn pc(&self) -> (r: u16)
        ensures
            r == self@.pc,
    {
        self.pc
    }

    /// The number of return addresses on the call stack.
    pub fn stack_depth(&self) -> (r: usize)
        ensures
            r == self@.stack.len(),
            r <= 16,
    {
        proof {
            use_type_invariant(self);
        }
        self.sp
    }

    /// The delay timer.
    pub fn delay_timer(&self) -> (r: u8)
        ensures
            r == self@.delay_timer,
    {
        self.delay_timer
    }

    /// The sound timer: the buzzer sounds while it is not zero.
    pub fn sound_timer(&self) -> (r: u8)
        ensures
            r == self@.sound_timer,
    {
        self.sound_timer
    }

    /// The whole memory.
    pub fn memory(&self) -> (r: &[u8; 4096])
        ensures
            r@ == self@.memory,
    {
        &self.memory
    }

    /// Whether the machine runs, has halted or waits for a key.
    pub fn status(&self) -> (r: Status)
        ensures
            r == self@.status(),
    {
        proof {
            use_type_invariant(self);
        }
        if self.halt {
            Status::Halted
        } else if self.wait.is_some() {
            Status::AwaitingKey
        } else {
            Status::Running
        }
    }

    /// Takes a snapshot of the keypad: `keys[k]` says whether key `k` is
    /// held down.
    pub fn set_keys(&mut self, keys: [bool; 16])
        ensures
            final(self)@ == (State { keys: keys@, ..old(self)@ }),
            final(self)@.wf(),
    {
        proof {
            use_type_invariant(&*self);
        }
        self.keys = keys;
    }

    /// Whether the key numbered by the low four bits of `key` is held down.
    pub fn key_pressed(&self, key: u8) -> (r: bool)
        ensures
            r == self@.key_down(key),
    {
        self.keys[(key % 16) as usize]
    }

    /// One tick of the 60 Hz clock: each timer that is not zero goes down
    /// by one.
    pub fn tick(&mut self)
        ensures
            final(self)@ == old(self)@.tick(),
            final(self)@.wf(),
    {
        proof {
            use_type_invariant(&*self);
        }
        if self.delay_timer > 0 {
            self.delay_timer -= 1;
        }
        if self.sound_timer > 0 {
            self.sound_timer -= 1;
        }
    }

    /// Hands a key to a machine that waits for one: its number, the low
    /// four bits of `key`, goes to the register that `FX0A` named, and the
    /// machine runs on behind that instruction. A machine that does not
    /// wait is left as it is.
    pub fn latch_key(&mut self, key: u8)
        ensures
            final(self)@ == old(self)@.latch_key(key),
            final(self)@.wf(),
    {
        proof {
            use_type_invariant(&*self);
        }
        match self.wait {
            Some(x) => {
                self.wait = None;
                self.regs[x as usize] = key % 16;
                self.pc = self.pc + 2;
            },
            None => {},
        }
    }
}

/// `a + b` in eight bits: what is carried out of the byte is dropped.
pub fn wrapping_sum(a: u8, b: u8) -> (r: u8)
    ensures
        r == (a + b) % 256,
{
    ((a as u16 + b as u16) % 256) as u8
}

/// `a - b` in eight bits: a borrow wraps around.
pub fn wrapping_difference(a: u8, b: u8) -> (r: u8)
    ensures
        r == (a - b) % 256,
{
    ((a as u16 + 256 - b as u16) % 256) as u8
}

impl Chip8 {
    /// Moves the program counter past the current instruction, and past
    /// the next one too if `skip` holds.
    fn advance(&mut self, skip: bool)
        requires
            old(self).pc <= 4094,
            old(self).wait.is_none(),
        ensures
            final(self)@ == old(self)@.advance(skip),
    {
        proof {
            use_type_invariant(&*self);
        }
        if skip {
            self.pc = self.pc + 4;
        } else {
            self.pc = self.pc + 2;
        }
    }

    /// Sets `Vx` to `v`.
    fn set_reg(&mut self, x: u8, v: u8)
        requires
            x < 16,
        ensures
            final(self)@ == old(self)@.with_reg(x, v),
    {
        proof {
            use_type_invariant(&*self);
        }
        self.regs[x as usize] = v;
    }

    /// Sets `Vx` to `v` and then `VF` to the flag `f`.
    fn set_reg_flag(&mut self, x: u8, v: u8, f: bool)
        requires
            x < 16,
        ensures
            final(self)@ == old(self)@.with_reg_flag(x, v, f),
    {
        proof {
            use_type_invariant(&*self);
        }
        self.regs[x as usize] = v;
        self.regs[15] = if f {
            1
        } else {
            0
        };
    }

    /// Executes `instr`, which was found at the program counter.
    fn execute(&mut self, instr: Instruction, random: u8) -> (r: Result<(), Fault>)
        requires
            instr.wf(),
            old(self).pc <= 4094,
            old(self).wait.is_none(),
            !old(self).halt,
        ensures
            match old(self)@.execute(instr, random) {
                Ok(s) => r.is_ok() && final(self)@ == s,
                Err(f) => r == Err::<(), Fault>(f) && final(self)@ == old(self)@,
            },
    {
        match instr {
            Instruction::Cls
            | Instruction::Ret
            | Instruction::Jp { .. }
            | Instruction::Call { .. }
            | Instruction::JpV0 { .. }
            | Instruction::SeByte { .. }
            | Instruction::SneByte { .. }
            | Instruction::SeReg { .. }
            | Instruction::SneReg { .. }
            | Instruction::Skp { .. }
            | Instruction::Sknp { .. }
            | Instruction::LdKey { .. } => self.execute_flow(instr),
            Instruction::LdByte { .. }
            | Instruction::AddByte { .. }
            | Instruction::LdReg { .. }
            | Instruction::Or { .. }
            | Instruction::And { .. }
            | Instruction::Xor { .. }
            | Instruction::AddReg { .. }
            | Instruction::Sub { .. }
            | Instruction::Subn { .. }
            | Instruction::Shr { .. }
            | Instruction::Shl { .. }
            | Instruction::Rnd { .. }
            | Instruction::LdFromDelay { .. } => {
                self.execute_alu(instr, random);
                Ok(())
            },
            _ => {
                self.execute_memory(instr);
                Ok(())
            },
        }
    }

    /// Executes an instruction that moves the program counter or suspends the machine.
    fn execute_flow(&mut self, instr: Instruction) -> (r: Result<(), Fault>)
        requires
            instr.wf(),
            old(self).pc <= 4094,
            old(self).wait.is_none(),
            !old(self).halt,
            instr is Cls
            || instr is Ret
            || instr is Jp
            || instr is Call
            || instr is JpV0
            || instr is SeByte
            || instr is SneByte
            || instr is SeReg
            || instr is SneReg
            || instr is Skp
            || instr is Sknp
            || instr is LdKey,
        ensures
            match old(self)@.execute(instr, 0) {
                Ok(s) => r.is_ok() && final(self)@ == s,
                Err(f) => r == Err::<(), Fault>(f) && final(self)@ == old(self)@,
            },
    {
        proof {
            use_type_invariant(&*self);
        }
        match instr {
            Instruction::Cls => {
                self.clear_display();
                self.advance(false);
            },
            Instruction::Ret => {
                if self.sp == 0 {
                    return Err(Fault::StackUnderflow);
                }
                self.sp = self.sp - 1;
                self.pc = self.stack[self.sp];
            },
            Instruction::Jp { addr } => {
                self.halt = addr == self.pc;
                self.pc = addr;
            },
            Instruction::Call { addr } => {
                if self.sp >= 16 {
                    return Err(Fault::StackOverflow);
                }
                self.stack[self.sp] = self.pc + 2;
                self.sp = self.sp + 1;
                self.pc = addr;
            },
            Instruction::JpV0 { addr } => {
                self.pc = self.regs[0] as u16 + addr;
            },
            Instruction::SeByte { x, byte } => {
                let skip: bool = self.regs[x as usize] == byte;
                self.advance(skip);
            },
            Instruction::SneByte { x, byte } => {
                let skip: bool = self.regs[x as usize] != byte;
                self.advance(skip);
            },
            Instruction::SeReg { x, y } => {
                let skip: bool = self.regs[x as usize] == self.regs[y as usize];
                self.advance(skip);
            },
            Instruction::SneReg { x, y } => {
                let skip: bool = self.regs[x as usize] != self.regs[y as usize];
                self.advance(skip);
            },
            Instruction::Skp { x } => {
                let skip: bool = self.key_pressed(self.regs[x as usize]);
                self.advance(skip);
            },
            Instruction::Sknp { x } => {
                let skip: bool = !self.key_pressed(self.regs[x as usize]);
                self.advance(skip);
            },
            Instruction::LdKey { x } => {
                self.wait = Some(x);
            },
            _ => {},
        }
        proof {
            lemma_same_state(self@, old(self)@.execute(instr, 0).unwrap());
        }
        Ok(())
    }

    /// Executes an instruction that computes a register.
    fn execute_alu(&mut self, instr: Instruction, random: u8)
        requires
            instr.wf(),
            old(self).pc <= 4094,
            old(self).wait.is_none(),
            instr is LdByte
            || instr is AddByte
            || instr is LdReg
            || instr is Or
            || instr is And
            || instr is Xor
            || instr is AddReg
            || instr is Sub
            || instr is Subn
            || instr is Shr
            || instr is Shl
            || instr is Rnd
            || instr is LdFromDelay,
        ensures
            old(self)@.execute(instr, random) == Ok::<State, Fault>(final(self)@),
    {
        proof {
            use_type_invariant(&*self);
        }
        match instr {
            Instruction::LdByte { x, byte } => {
                self.set_reg(x, byte);
                self.advance(false);
            },
            Instruction::AddByte { x, byte } => {
                let v: u8 = wrapping_sum(self.regs[x as usize], byte);
                self.set_reg(x, v);
                self.advance(false);
            },
            Instruction::LdReg { x, y } => {
                let v: u8 = self.regs[y as usize];
                self.set_reg(x, v);
                self.advance(false);
            },
            Instruction::Or { x, y } => {
                let v: u8 = self.regs[x as usize] | self.regs[y as usize];
                self.set_reg(x, v);
                self.advance(false);
            },
            Instruction::And { x, y } => {
                let v: u8 = self.regs[x as usize] & self.regs[y as usize];
                self.set_reg(x, v);
                self.advance(false);
            },
            Instruction::Xor { x, y } => {
                let v: u8 = self.regs[x as usize] ^ self.regs[y as usize];
                self.set_reg(x, v);
                self.advance(false);
            },
            Instruction::AddReg { x, y } => {
                let vx: u8 = self.regs[x as usize];
                let vy: u8 = self.regs[y as usize];
                self.set_reg_flag(x, wrapping_sum(vx, vy), vx as u16 + vy as u16 > 255);
                self.advance(false);
            },
            Instruction::Sub { x, y } => {
                let vx: u8 = self.regs[x as usize];
                let vy: u8 = self.regs[y as usize];
                self.set_reg_flag(x, wrapping_difference(vx, vy), vx >= vy);
                self.advance(false);
            },
            Instruction::Subn { x, y } => {
                let vx: u8 = self.regs[x as usize];
                let vy: u8 = self.regs[y as usize];
                self.set_reg_flag(x, wrapping_difference(vy, vx), vy >= vx);
                self.advance(false);
            },
            Instruction::Shr { x, y } => {
                let vy: u8 = self.regs[y as usize];
                self.set_reg_flag(x, vy / 2, vy % 2 == 1);
                self.advance(false);
            },
            Instruction::Shl { x, y } => {
                let vy: u8 = self.regs[y as usize];
                self.set_reg_flag(x, wrapping_sum(vy, vy), vy >= 128);
                self.advance(false);
            },
            Instruction::Rnd { x, byte } => {
                self.set_reg(x, random & byte);
                self.advance(false);
            },
            Instruction::LdFromDelay { x } => {
                let v: u8 = self.delay_timer;
                self.set_reg(x, v);
                self.advance(false);
            },
            _ => {},
        }
        proof {
            lemma_same_state(self@, old(self)@.execute(instr, random).unwrap());
        }
    }

    /// Executes an instruction on memory, the index register, the timers or the display.
    fn execute_memory(&mut self, instr: Instruction)
        requires
            instr.wf(),
            old(self).pc <= 4094,
            old(self).wait.is_none(),
            instr is LdIndex
            || instr is Drw
            || instr is LdDelay
            || instr is LdSound
            || instr is AddIndex
            || instr is LdGlyph
            || instr is LdBcd
            || instr is StoreRegs
            || instr is LoadRegs,
        ensures
            old(self)@.execute(instr, 0) == Ok::<State, Fault>(final(self)@),
    {
        proof {
            use_type_invariant(&*self);
        }
        match instr {
            Instruction::LdIndex { addr } => {
                self.index = addr;
                self.advance(false);
            },
            Instruction::Drw { x, y, rows } => {
                self.drw(x, y, rows);
                self.advance(false);
            },
            Instruction::LdDelay { x } => {
                self.delay_timer = self.regs[x as usize];
                self.advance(false);
            },
            Instruction::LdSound { x } => {
                self.sound_timer = self.regs[x as usize];
                self.advance(false);
            },
            Instruction::AddIndex { x } => {
                let sum: u32 = self.index as u32 + self.regs[x as usize] as u32;
                self.index = (sum % 0x10000) as u16;
                self.advance(false);
            },
            Instruction::LdGlyph { x } => {
                self.index = (self.regs[x as usize] % 16) as u16 * 5;
                self.advance(false);
            },
            Instruction::LdBcd { x } => {
                let v: u8 = self.regs[x as usize];
                let at: usize = self.index as usize;
                self.memory[at % 4096] = v / 100;
                self.memory[(at + 1) % 4096] = (v / 10) % 10;
                self.memory[(at + 2) % 4096] = v % 10;
                self.advance(false);
            },
            Instruction::StoreRegs { x } => {
                self.store_regs(x);
                self.advance(false);
            },
            Instruction::LoadRegs { x } => {
                self.load_regs(x);
                self.advance(false);
            },
            _ => {},
        }
        proof {
            lemma_same_state(self@, old(self)@.execute(instr, 0).unwrap());
        }
    }

    /// Zeroes the display bitmap.
    fn clear_display(&mut self)
        ensures
            final(self)@ == (State {
                memory: Seq::new(
                    4096,
                    |a: int|
                        if a >= 0xF00 {
                            0u8
                        } else {
                            old(self)@.memory[a]
                        },
                ),
                ..old(self)@
            }),
    {
        proof {
            use_type_invariant(&*self);
        }
        let mut a: usize = 0xF00;
        while a < 0x1000
            invariant
                0xF00 <= a <= 0x1000,
                self.inv(),
                self.regs == old(self).regs,
                self.same_control(old(self)),
                forall|b: int|
                    0 <= b < 4096 ==> self.memory@[b] == if 0xF00 <= b < a {
                        0u8
                    } else {
                        old(self).memory@[b]
                    },
            decreases 0x1000 - a,
        {
            self.memory[a] = 0;
            a += 1;
        }
        proof {
            assert(self@.memory =~= Seq::new(
                4096,
                |a: int|
                    if a >= 0xF00 {
                        0u8
                    } else {
                        old(self)@.memory[a]
                    },
            ));
        }
    }

    /// Copies `V0..=Vx` to memory from the index register on, and moves
    /// the index register past them.
    fn store_regs(&mut self, x: u8)
        requires
            x < 16,
        ensures
            final(self)@ == (State {
                memory: Seq::new(
                    4096,
                    |a: int|
                        if (a - old(self)@.index) % 4096 <= x {
                            old(self)@.regs[(a - old(self)@.index) % 4096]
                        } else {
                            old(self)@.memory[a]
                        },
                ),
                index: ((old(self)@.index + x + 1) % 0x10000) as u16,
                ..old(self)@
            }),
    {
        proof {
            use_type_invariant(&*self);
        }
        let base: usize = self.index as usize;
        let mut k: usize = 0;
        while k <= x as usize
            invariant
                k <= x + 1,
                x < 16,
                base == old(self).index,
                self.inv(),
                self.regs == old(self).regs,
                self.same_control(old(self)),
                forall|a: int|
                    0 <= a < 4096 ==> self.memory@[a] == if (a - base) % 4096 < k {
                        old(self).regs@[(a - base) % 4096]
                    } else {
                        old(self).memory@[a]
                    },
            decreases x + 1 - k,
        {
            self.memory[(base + k) % 4096] = self.regs[k];
            k += 1;
        }
        let sum: u32 = self.index as u32 + x as u32 + 1;
        self.index = (sum % 0x10000) as u16;
        proof {
            assert(self@.memory =~= Seq::new(
                4096,
                |a: int|
                    if (a - old(self)@.index) % 4096 <= x {
                        old(self)@.regs[(a - old(self)@.index) % 4096]
                    } else {
                        old(self)@.memory[a]
                    },
            ));
        }
    }

    /// Fills `V0..=Vx` from memory at the index register on, and moves the
    /// index register past them.
    fn load_regs(&mut self, x: u8)
        requires
            x < 16,
        ensures
            final(self)@ == (State {
                regs: Seq::new(
                    16,
                    |k: int|
                        if k <= x {
                            old(self)@.memory[address(old(self)@.index, k)]
                        } else {
                            old(self)@.regs[k]
                        },
                ),
                index: ((old(self)@.index + x + 1) % 0x10000) as u16,
                ..old(self)@
            }),
    {
        proof {
            use_type_invariant(&*self);
        }
        let base: usize = self.index as usize;
        let mut k: usize = 0;
        while k <= x as usize
            invariant
                k <= x + 1,
                x < 16,
                base == old(self).index,
                self.inv(),
                self.memory == old(self).memory,
                self.same_control(old(self)),
                forall|j: int|
                    0 <= j < 16 ==> self.regs@[j] == if j < k {
                        old(self).memory@[address(old(self).index, j)]
                    } else {
                        old(self).regs@[j]
                    },
            decreases x + 1 - k,
        {
            self.regs[k] = self.memory[(base + k) % 4096];
            k += 1;
        }
        let sum: u32 = self.index as u32 + x as u32 + 1;
        self.index = (sum % 0x10000) as u16;
        proof {
            assert(self@.regs =~= Seq::new(
                16,
                |k: int|
                    if k <= x {
                        old(self)@.memory[address(old(self)@.index, k)]
                    } else {
                        old(self)@.regs[k]
                    },
            ));
        }
    }

    /// Draws the sprite of `n` rows that the index register points to, with
    /// its top left pixel at `(Vx mod 64, Vy mod 32)`, by XOR. `VF` becomes
    /// 1 if that turned off a pixel that was on, and 0 otherwise. What
    /// would lie beyond the right or the bottom edge is not drawn.
    pub fn drw(&mut self, x: u8, y: u8, n: u8)
        requires
            x < 16,
            y < 16,
        ensures
            final(self)@ == old(self)@.draw(x, y, n),
            final(self)@.wf(),
    {
        proof {
            use_type_invariant(&*self);
        }
        let vx: u8 = self.regs[x as usize];
        let vy: u8 = self.regs[y as usize];
        let hit: bool = blit(&mut self.memory, self.index, vx, vy, n);
        self.regs[15] = if hit {
            1
        } else {
            0
        };
    }
}

impl Chip8 {
    /// The instruction word at the program counter.
    fn fetch(&self) -> (r: Option<u16>)
        ensures
            r == self@.fetch(),
    {
        if self.pc <= 4094 {
            let hi: u16 = self.memory[self.pc as usize] as u16;
            let lo: u16 = self.memory[self.pc as usize + 1] as u16;
            Some(hi * 256 + lo)
        } else {
            None
        }
    }

    /// Whether the next step needs a random byte.
    fn draws_random(&self) -> (r: bool)
        ensures
            r == self@.draws_random(),
    {
        if self.halt || self.wait.is_some() {
            return false;
        }
        match self.fetch() {
            Some(op) => match decode(op) {
                Some(Instruction::Rnd { .. }) => true,
                _ => false,
            },
            None => false,
        }
    }

    /// One step with `random` as the random byte, should the instruction
    /// ask for one: fetches the word at the program counter, decodes and
    /// executes it. A machine that has halted or waits for a key does
    /// nothing and says so. A fault leaves the machine as it was.
    pub fn step_with(&mut self, random: u8) -> (r: Result<Status, StepError>)
        ensures
            (final(self)@, r) == old(self)@.step(random),
            final(self)@.wf(),
    {
        proof {
            use_type_invariant(&*self);
        }
        if self.halt {
            return Ok(Status::Halted);
        }
        if self.wait.is_some() {
            return Ok(Status::AwaitingKey);
        }
        let pc: u16 = self.pc;
        let op: u16 = match self.fetch() {
            Some(op) => op,
            None => {
                return Err(StepError { fault: Fault::FetchOutOfRange, opcode: 0, pc });
            },
        };
        let instr: Instruction = match decode(op) {
            Some(instr) => instr,
            None => {
                return Err(StepError { fault: Fault::UnknownOpcode, opcode: op, pc });
            },
        };
        match self.execute(instr, random) {
            Ok(()) => {
                proof {
                    use_type_invariant(&*self);
                }
                Ok(self.status())
            },
            Err(fault) => Err(StepError { fault, opcode: op, pc }),
        }
    }

    /// One step of the machine: fetch, decode, execute. `CXNN` takes its
    /// random byte from the thread's generator; every other instruction
    /// is executed as `step_with` executes it.
    pub fn process_instruction(&mut self) -> (r: Result<Status, StepError>)
        ensures
            exists|random: u8| (final(self)@, r) == #[trigger] old(self)@.step(random),
            !old(self)@.draws_random() ==> (final(self)@, r) == old(self)@.step(0),
            final(self)@.wf(),
    {
        let random: u8 = if self.draws_random() {
            random_byte()
        } else {
            0
        };
        self.step_with(random)
    }

    /// Up to `count` steps: stops early when the machine halts, waits for
    /// a key or faults, and reports the last step. The driver calls this
    /// between two ticks of the clock.
    pub fn process_instructions(&mut self, count: usize) -> (r: Result<Status, StepError>)
        ensures
            exists|randoms: Seq<u8>|
                randoms.len() == count && (final(self)@, r) == #[trigger] old(self)@.run(randoms),
            final(self)@.wf(),
    {
        proof {
            use_type_invariant(&*self);
        }
        let ghost mut used: Seq<u8> = Seq::empty();
        let mut report: Result<Status, StepError> = Ok(self.status());
        let mut done: usize = 0;
        while done < count && matches!(report, Ok(Status::Running))
            invariant
                done <= count,
                used.len() == done,
                (self@, report) == old(self)@.run(used),
                self@.wf(),
            decreases count - done,
        {
            let ghost before = self@;
            report = self.process_instruction();
            proof {
                let random = choose|random: u8| (self@, report) == #[trigger] before.step(random);
                lemma_run_split(old(self)@, used, seq![random]);
                assert(seq![random].drop_first() =~= Seq::<u8>::empty());
                assert(before.run(seq![random]) == (self@, report)) by {
                    reveal_with_fuel(State::run, 2);
                }
                used = used + seq![random];
            }
            done += 1;
        }
        proof {
            let rest = Seq::new((count - done) as nat, |i: int| 0u8);
            lemma_run_split(old(self)@, used, rest);
            if done == count {
                assert(used + rest =~= used);
            }
            assert((used + rest).len() == count);
        }
        report
    }
}

impl Chip8 {
    /// The display as a frame buffer: one colour for each of the 2048
    /// pixels, row by row.
    pub fn get_display_buffer(&self) -> (v: Vec<u32>)
        ensures
            v@ == frame_spec(self@.memory),
    {
        frame_buffer(&self.memory)
    }

    /// The display as 32 lines of text, two characters to a pixel.
    pub fn draw_frame_buffer(&self) -> (rows: Vec<String>)
        ensures
            rows@.len() == 32,
            forall|r: int| 0 <= r < 32 ==> (#[trigger] rows@[r])@ == row_text(self@.memory, r),
    {
        frame_rows(&self.memory)
    }

    /// A one-line summary of the registers, for a debugger's display.
    pub fn print_state(&self) -> (line: String)
        ensures
            line@ == state_text(self@),
    {
        proof {
            use_type_invariant(self);
        }
        let mut line: String = String::from_str("[");
        append_bytes(&mut line, self.regs.as_slice());
        line.append(" ] PC: ");
        append_hex(&mut line, self.pc as u32, 4);
        line.append(", SP: ");
        append_hex(&mut line, self.sp as u32, 4);
        line.append(", I: ");
        append_hex(&mut line, self.index as u32, 4);
        line
    }

    /// The line that traces the step to come, for a debugger's display:
    /// where the machine is and which instruction is next.
    pub fn trace_line(&self) -> (line: Option<String>)
        ensures
            match trace_text(self@) {
                Some(text) => line.is_some() && line.unwrap()@ == text,
                None => line.is_none(),
            },
    {
        match self.fetch() {
            Some(op) => {
                let mut line: String = String::new();
                append_hex(&mut line, self.pc as u32, 4);
                line.append(": ");
                append_hex(&mut line, op as u32, 4);
                line.append(" ");
                let text: String = disasm_inst(op);
                line.append(text.as_str());
                Some(line)
            },
            None => None,
        }
    }

    /// A dump of the first 512 bytes of memory, where the font lies: a
    /// heading and 64 lines of eight bytes.
    pub fn print_bios(&self) -> (lines: Vec<String>)
        ensures
            lines@.len() == 65,
            lines@[0]@ == "first 512 (0x200) bytes of memory:"@,
            forall|row: int|
                0 <= row < 64 ==> (#[trigger] lines@[row + 1])@ == dump_row_text(
                    self@.memory,
                    row,
                ),
    {
        let mut lines: Vec<String> = Vec::with_capacity(65);
        lines.push(String::from_str("first 512 (0x200) bytes of memory:"));
        let mut row: usize = 0;
        while row < 64
            invariant
                row <= 64,
                lines@.len() == row + 1,
                lines@[0]@ == "first 512 (0x200) bytes of memory:"@,
                forall|q: int|
                    0 <= q < row ==> (#[trigger] lines@[q + 1])@ == dump_row_text(
                        self@.memory,
                        q,
                    ),
            decreases 64 - row,
        {
            let mut line: String = String::from_str("0x");
            append_hex(&mut line, (row * 8) as u32, 6);
            line.append(":");
            let bytes: &[u8] = vstd::slice::slice_subrange(
                self.memory.as_slice(),
                row * 8,
                row * 8 + 8,
            );
            append_bytes(&mut line, bytes);
            lines.push(line);
            row += 1;
        }
        lines
    }

    /// Reads the key that a player typed: `input` names a key if, white
    /// space at its ends aside, it is a decimal number from 0 to 15. The
    /// driver asks again until it does, and then latches the key.
    pub fn wait_key_press(input: &str) -> (key: Option<u8>)
        ensures
            key == key_spec(input@),
    {
        let word: Vec<char> = chars_of(trim(input));
        match parse_decimal(&word, 255) {
            Some(n) => if n <= 15 {
                Some(n as u8)
            } else {
                None
            },
            None => None,
        }
    }
}

} // verus!
