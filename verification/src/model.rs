//! The mathematical model of the machine: its state as plain values and
//! sequences, and the meaning of every instruction as a function on states.

use vstd::prelude::*;

verus! {

/// Height of the display in pixels.
pub const DISPLAY_HEIGHT: usize = 32;

/// Width of the display in pixels.
pub const DISPLAY_WIDTH: usize = 64;

/// A decoded instruction. Register operands are register numbers below 16,
/// addresses are below 4096 and a sprite height is below 16.
#[derive(Clone, Copy, Debug, PartialEq, Eq, Structural)]
pub enum Instruction {
    /// `00E0`: clear the display.
    Cls,
    /// `00EE`: return from a subroutine.
    Ret,
    /// `1NNN`: jump to `addr`.
    Jp { addr: u16 },
    /// `2NNN`: call the subroutine at `addr`.
    Call { addr: u16 },
    /// `3XNN`: skip the next instruction if `Vx == byte`.
    SeByte { x: u8, byte: u8 },
    /// `4XNN`: skip the next instruction if `Vx != byte`.
    SneByte { x: u8, byte: u8 },
    /// `5XY0`: skip the next instruction if `Vx == Vy`.
    SeReg { x: u8, y: u8 },
    /// `6XNN`: `Vx := byte`.
    LdByte { x: u8, byte: u8 },
    /// `7XNN`: `Vx := Vx + byte`, wrapping, no flag.
    AddByte { x: u8, byte: u8 },
    /// `8XY0`: `Vx := Vy`.
    LdReg { x: u8, y: u8 },
    /// `8XY1`: `Vx := Vx | Vy`.
    Or { x: u8, y: u8 },
    /// `8XY2`: `Vx := Vx & Vy`.
    And { x: u8, y: u8 },
    /// `8XY3`: `Vx := Vx ^ Vy`.
    Xor { x: u8, y: u8 },
    /// `8XY4`: `Vx := Vx + Vy`, `VF := carry`.
    AddReg { x: u8, y: u8 },
    /// `8XY5`: `Vx := Vx - Vy`, `VF := no borrow`.
    Sub { x: u8, y: u8 },
    /// `8XY6`: `Vx := Vy >> 1`, `VF := low bit of Vy`.
    Shr { x: u8, y: u8 },
    /// `8XY7`: `Vx := Vy - Vx`, `VF := no borrow`.
    Subn { x: u8, y: u8 },
    /// `8XYE`: `Vx := Vy << 1`, `VF := high bit of Vy`.
    Shl { x: u8, y: u8 },
    /// `9XY0`: skip the next instruction if `Vx != Vy`.
    SneReg { x: u8, y: u8 },
    /// `ANNN`: `I := addr`.
    LdIndex { addr: u16 },
    /// `BNNN`: jump to `V0 + addr`.
    JpV0 { addr: u16 },
    /// `CXNN`: `Vx := random byte & byte`.
    Rnd { x: u8, byte: u8 },
    /// `DXYN`: draw a sprite of `rows` rows at `(Vx, Vy)`.
    Drw { x: u8, y: u8, rows: u8 },
    /// `EX9E`: skip the next instruction if key `Vx` is pressed.
    Skp { x: u8 },
    /// `EXA1`: skip the next instruction if key `Vx` is not pressed.
    Sknp { x: u8 },
    /// `FX07`: `Vx := delay timer`.
    LdFromDelay { x: u8 },
    /// `FX0A`: wait for a key and store its number in `Vx`.
    LdKey { x: u8 },
    /// `FX15`: `delay timer := Vx`.
    LdDelay { x: u8 },
    /// `FX18`: `sound timer := Vx`.
    LdSound { x: u8 },
    /// `FX1E`: `I := I + Vx`.
    AddIndex { x: u8 },
    /// `FX29`: `I :=` address of the glyph of digit `Vx`.
    LdGlyph { x: u8 },
    /// `FX33`: store the three decimal digits of `Vx` at `I`, `I+1`, `I+2`.
    LdBcd { x: u8 },
    /// `FX55`: store `V0..=Vx` at `I..`, then `I := I + x + 1`.
    StoreRegs { x: u8 },
    /// `FX65`: load `V0..=Vx` from `I..`, then `I := I + x + 1`.
    LoadRegs { x: u8 },
}

/// Why the machine refused to execute.
#[derive(Clone, Copy, Debug, PartialEq, Eq, Structural)]
pub enum Fault {
    /// The instruction word matches no defined pattern.
    UnknownOpcode,
    /// A call with sixteen return addresses already stacked.
    StackOverflow,
    /// A return with no return address stacked.
    StackUnderflow,
    /// The program counter leaves no room for a two-byte instruction.
    FetchOutOfRange,
}

/// A fatal condition: what failed, on which instruction word (0 where none
/// could be fetched) and at which program counter.
#[derive(Clone, Copy, Debug, PartialEq, Eq, Structural)]
pub struct StepError {
    pub fault: Fault,
    pub opcode: u16,
    pub pc: u16,
}

/// What the machine is doing after a step.
#[derive(Clone, Copy, Debug, PartialEq, Eq, Structural)]
pub enum Status {
    /// Ready for the next instruction.
    Running,
    /// A jump to itself was executed: the program has ended.
    Halted,
    /// Suspended on `FX0A` until a key is latched.
    AwaitingKey,
}

/// The machine's state as plain mathematical values.
pub struct State {
    /// `V0..VF`.
    pub regs: Seq<u8>,
    /// The index register `I`.
    pub index: u16,
    /// The program counter.
    pub pc: u16,
    /// The return addresses, oldest first.
    pub stack: Seq<u16>,
    pub delay_timer: u8,
    pub sound_timer: u8,
    pub memory: Seq<u8>,
    /// Which of the sixteen keys are held down.
    pub keys: Seq<bool>,
    /// Set once a jump to itself has been executed.
    pub halted: bool,
    /// The register that `FX0A` is waiting to fill, while it waits.
    pub waiting: Option<u8>,
}

impl Instruction {
    /// Every operand is within the range its field of the instruction word
    /// can hold.
    pub open spec fn wf(self) -> bool {
        match self {
            Instruction::Cls | Instruction::Ret => true,
            Instruction::Jp { addr }
            | Instruction::Call { addr }
            | Instruction::LdIndex { addr }
            | Instruction::JpV0 { addr } => addr < 4096,
            Instruction::SeByte { x, .. }
            | Instruction::SneByte { x, .. }
            | Instruction::LdByte { x, .. }
            | Instruction::AddByte { x, .. }
            | Instruction::Rnd { x, .. } => x < 16,
            Instruction::SeReg { x, y }
            | Instruction::LdReg { x, y }
            | Instruction::Or { x, y }
            | Instruction::And { x, y }
            | Instruction::Xor { x, y }
            | Instruction::AddReg { x, y }
            | Instruction::Sub { x, y }
            | Instruction::Shr { x, y }
            | Instruction::Subn { x, y }
            | Instruction::Shl { x, y }
            | Instruction::SneReg { x, y } => x < 16 && y < 16,
            Instruction::Drw { x, y, rows } => x < 16 && y < 16 && rows < 16,
            Instruction::Skp { x }
            | Instruction::Sknp { x }
            | Instruction::LdFromDelay { x }
            | Instruction::LdKey { x }
            | Instruction::LdDelay { x }
            | Instruction::LdSound { x }
            | Instruction::AddIndex { x }
            | Instruction::LdGlyph { x }
            | Instruction::LdBcd { x }
            | Instruction::StoreRegs { x }
            | Instruction::LoadRegs { x } => x < 16,
        }
    }
}

} // verus!
