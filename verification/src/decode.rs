//! Decoding of 16-bit instruction words.

use vstd::prelude::*;
use crate::model::Instruction;

verus! {

/// The instruction that the word `op` stands for, read as four nibbles
/// from the most significant down, if it stands for one.
pub open spec fn decode_spec(op: u16) -> Option<Instruction> {
    decode_nibbles(op / 4096, ((op / 256) % 16) as u8, ((op / 16) % 16) as u8, (op % 16) as u8)
}

/// The instruction that the nibbles `a x y d` stand for, if any.
pub open spec fn decode_nibbles(a: u16, x: u8, y: u8, d: u8) -> Option<Instruction> {
    let byte = (y * 16 + d) as u8;
    let addr = (x * 256 + y * 16 + d) as u16;
    let op = a * 4096 + addr;
    if a == 0x0 {
        if op == 0x00E0 {
            Some(Instruction::Cls)
        } else if op == 0x00EE {
            Some(Instruction::Ret)
        } else {
            None
        }
    } else if a == 0x1 {
        Some(Instruction::Jp { addr })
    } else if a == 0x2 {
        Some(Instruction::Call { addr })
    } else if a == 0x3 {
        Some(Instruction::SeByte { x, byte })
    } else if a == 0x4 {
        Some(Instruction::SneByte { x, byte })
    } else if a == 0x5 {
        if d == 0 {
            Some(Instruction::SeReg { x, y })
        } else {
            None
        }
    } else if a == 0x6 {
        Some(Instruction::LdByte { x, byte })
    } else if a == 0x7 {
        Some(Instruction::AddByte { x, byte })
    } else if a == 0x8 {
        if d == 0x0 {
            Some(Instruction::LdReg { x, y })
        } else if d == 0x1 {
            Some(Instruction::Or { x, y })
        } else if d == 0x2 {
            Some(Instruction::And { x, y })
        } else if d == 0x3 {
            Some(Instruction::Xor { x, y })
        } else if d == 0x4 {
            Some(Instruction::AddReg { x, y })
        } else if d == 0x5 {
            Some(Instruction::Sub { x, y })
        } else if d == 0x6 {
            Some(Instruction::Shr { x, y })
        } else if d == 0x7 {
            Some(Instruction::Subn { x, y })
        } else if d == 0xE {
            Some(Instruction::Shl { x, y })
        } else {
            None
        }
    } else if a == 0x9 {
        if d == 0 {
            Some(Instruction::SneReg { x, y })
        } else {
            None
        }
    } else if a == 0xA {
        Some(Instruction::LdIndex { addr })
    } else if a == 0xB {
        Some(Instruction::JpV0 { addr })
    } else if a == 0xC {
        Some(Instruction::Rnd { x, byte })
    } else if a == 0xD {
        Some(Instruction::Drw { x, y, rows: d as u8 })
    } else if a == 0xE {
        if byte == 0x9E {
            Some(Instruction::Skp { x })
        } else if byte == 0xA1 {
            Some(Instruction::Sknp { x })
        } else {
            None
        }
    } else {
        if byte == 0x07 {
            Some(Instruction::LdFromDelay { x })
        } else if byte == 0x0A {
            Some(Instruction::LdKey { x })
        } else if byte == 0x15 {
            Some(Instruction::LdDelay { x })
        } else if byte == 0x18 {
            Some(Instruction::LdSound { x })
        } else if byte == 0x1E {
            Some(Instruction::AddIndex { x })
        } else if byte == 0x29 {
            Some(Instruction::LdGlyph { x })
        } else if byte == 0x33 {
            Some(Instruction::LdBcd { x })
        } else if byte == 0x55 {
            Some(Instruction::StoreRegs { x })
        } else if byte == 0x65 {
            Some(Instruction::LoadRegs { x })
        } else {
            None
        }
    }
}

/// The instruction word that stands for `instr`.
pub open spec fn encode_spec(instr: Instruction) -> int {
    match instr {
        Instruction::Cls => 0x00E0,
        Instruction::Ret => 0x00EE,
        Instruction::Jp { addr } => 0x1000 + addr,
        Instruction::Call { addr } => 0x2000 + addr,
        Instruction::SeByte { x, byte } => 0x3000 + x * 256 + byte,
        Instruction::SneByte { x, byte } => 0x4000 + x * 256 + byte,
        Instruction::SeReg { x, y } => 0x5000 + x * 256 + y * 16,
        Instruction::LdByte { x, byte } => 0x6000 + x * 256 + byte,
        Instruction::AddByte { x, byte } => 0x7000 + x * 256 + byte,
        Instruction::LdReg { x, y } => 0x8000 + x * 256 + y * 16,
        Instruction::Or { x, y } => 0x8001 + x * 256 + y * 16,
        Instruction::And { x, y } => 0x8002 + x * 256 + y * 16,
        Instruction::Xor { x, y } => 0x8003 + x * 256 + y * 16,
        Instruction::AddReg { x, y } => 0x8004 + x * 256 + y * 16,
        Instruction::Sub { x, y } => 0x8005 + x * 256 + y * 16,
        Instruction::Shr { x, y } => 0x8006 + x * 256 + y * 16,
        Instruction::Subn { x, y } => 0x8007 + x * 256 + y * 16,
        Instruction::Shl { x, y } => 0x800E + x * 256 + y * 16,
        Instruction::SneReg { x, y } => 0x9000 + x * 256 + y * 16,
        Instruction::LdIndex { addr } => 0xA000 + addr,
        Instruction::JpV0 { addr } => 0xB000 + addr,
        Instruction::Rnd { x, byte } => 0xC000 + x * 256 + byte,
        Instruction::Drw { x, y, rows } => 0xD000 + x * 256 + y * 16 + rows,
        Instruction::Skp { x } => 0xE09E + x * 256,
        Instruction::Sknp { x } => 0xE0A1 + x * 256,
        Instruction::LdFromDelay { x } => 0xF007 + x * 256,
        Instruction::LdKey { x } => 0xF00A + x * 256,
        Instruction::LdDelay { x } => 0xF015 + x * 256,
        Instruction::LdSound { x } => 0xF018 + x * 256,
        Instruction::AddIndex { x } => 0xF01E + x * 256,
        Instruction::LdGlyph { x } => 0xF029 + x * 256,
        Instruction::LdBcd { x } => 0xF033 + x * 256,
        Instruction::StoreRegs { x } => 0xF055 + x * 256,
        Instruction::LoadRegs { x } => 0xF065 + x * 256,
    }
}

/// The four nibbles of a word determine it, and are recovered from it by
/// division.
pub proof fn lemma_nibbles(a: int, b: int, c: int, d: int)
    requires
        0 <= a < 16,
        0 <= b < 16,
        0 <= c < 16,
        0 <= d < 16,
    ensures
        ({
            let op = a * 4096 + b * 256 + c * 16 + d;
            &&& 0 <= op < 0x10000
            &&& op / 4096 == a
            &&& (op / 256) % 16 == b
            &&& (op / 16) % 16 == c
            &&& op % 16 == d
            &&& op % 256 == c * 16 + d
            &&& op % 4096 == b * 256 + c * 16 + d
        }),
{
}

/// A word is the sum of its nibbles, each weighted by its place.
pub proof fn lemma_split(op: u16)
    by (bit_vector)
    ensures
        op == (op / 4096) * 4096 + ((op / 256) % 16) * 256 + ((op / 16) % 16) * 16 + op % 16,
        op % 256 == ((op / 16) % 16) * 16 + op % 16,
        op % 4096 == ((op / 256) % 16) * 256 + ((op / 16) % 16) * 16 + op % 16,
        op / 4096 < 16,
{
}

/// The nibbles that make up the word of `instr`.
pub open spec fn nibbles_of(instr: Instruction) -> (int, int, int, int) {
    match instr {
        Instruction::Cls => (0x0, 0x0, 0xE, 0x0),
        Instruction::Ret => (0x0, 0x0, 0xE, 0xE),
        Instruction::Jp { addr } => (0x1, (addr / 256) as int, ((addr / 16) % 16) as int, (addr % 16) as int),
        Instruction::Call { addr } => (0x2, (addr / 256) as int, ((addr / 16) % 16) as int, (addr % 16) as int),
        Instruction::SeByte { x, byte } => (0x3, x as int, (byte / 16) as int, (byte % 16) as int),
        Instruction::SneByte { x, byte } => (0x4, x as int, (byte / 16) as int, (byte % 16) as int),
        Instruction::SeReg { x, y } => (0x5, x as int, y as int, 0x0),
        Instruction::LdByte { x, byte } => (0x6, x as int, (byte / 16) as int, (byte % 16) as int),
        Instruction::AddByte { x, byte } => (0x7, x as int, (byte / 16) as int, (byte % 16) as int),
        Instruction::LdReg { x, y } => (0x8, x as int, y as int, 0x0),
        Instruction::Or { x, y } => (0x8, x as int, y as int, 0x1),
        Instruction::And { x, y } => (0x8, x as int, y as int, 0x2),
        Instruction::Xor { x, y } => (0x8, x as int, y as int, 0x3),
        Instruction::AddReg { x, y } => (0x8, x as int, y as int, 0x4),
        Instruction::Sub { x, y } => (0x8, x as int, y as int, 0x5),
        Instruction::Shr { x, y } => (0x8, x as int, y as int, 0x6),
        Instruction::Subn { x, y } => (0x8, x as int, y as int, 0x7),
        Instruction::Shl { x, y } => (0x8, x as int, y as int, 0xE),
        Instruction::SneReg { x, y } => (0x9, x as int, y as int, 0x0),
        Instruction::LdIndex { addr } => (0xA, (addr / 256) as int, ((addr / 16) % 16) as int, (addr % 16) as int),
        Instruction::JpV0 { addr } => (0xB, (addr / 256) as int, ((addr / 16) % 16) as int, (addr % 16) as int),
        Instruction::Rnd { x, byte } => (0xC, x as int, (byte / 16) as int, (byte % 16) as int),
        Instruction::Drw { x, y, rows } => (0xD, x as int, y as int, rows as int),
        Instruction::Skp { x } => (0xE, x as int, 0x9, 0xE),
        Instruction::Sknp { x } => (0xE, x as int, 0xA, 0x1),
        Instruction::LdFromDelay { x } => (0xF, x as int, 0x0, 0x7),
        Instruction::LdKey { x } => (0xF, x as int, 0x0, 0xA),
        Instruction::LdDelay { x } => (0xF, x as int, 0x1, 0x5),
        Instruction::LdSound { x } => (0xF, x as int, 0x1, 0x8),
        Instruction::AddIndex { x } => (0xF, x as int, 0x1, 0xE),
        Instruction::LdGlyph { x } => (0xF, x as int, 0x2, 0x9),
        Instruction::LdBcd { x } => (0xF, x as int, 0x3, 0x3),
        Instruction::StoreRegs { x } => (0xF, x as int, 0x5, 0x5),
        Instruction::LoadRegs { x } => (0xF, x as int, 0x6, 0x5),
    }
}

/// The nibbles of an instruction with operands in range are nibbles, add
/// up to its word and decode to it.
proof fn lemma_nibbles_of(instr: Instruction)
    requires
        instr.wf(),
    ensures
        ({
            let (a, b, c, d) = nibbles_of(instr);
            &&& 0 <= a < 16 && 0 <= b < 16 && 0 <= c < 16 && 0 <= d < 16
            &&& encode_spec(instr) == a * 4096 + b * 256 + c * 16 + d
            &&& decode_nibbles(a as u16, b as u8, c as u8, d as u8) == Some(instr)
        }),
{
    match instr {
        Instruction::Jp { addr }
        | Instruction::Call { addr }
        | Instruction::LdIndex { addr }
        | Instruction::JpV0 { addr } => {
            assert(addr == (addr / 256) * 256 + ((addr / 16) % 16) * 16 + addr % 16);
        },
        Instruction::SeByte { x, byte }
        | Instruction::SneByte { x, byte }
        | Instruction::LdByte { x, byte }
        | Instruction::AddByte { x, byte }
        | Instruction::Rnd { x, byte } => {
            assert(byte == (byte / 16) * 16 + byte % 16);
        },
        _ => {},
    }
}

/// A decoded instruction has its operands in range, and its word is the
/// one it was decoded from.
pub proof fn lemma_decode_sound(op: u16)
    requires
        decode_spec(op).is_some(),
    ensures
        decode_spec(op).unwrap().wf(),
        encode_spec(decode_spec(op).unwrap()) == op,
{
    lemma_split(op);
}

/// Every instruction with operands in range is the decoding of its word.
pub proof fn lemma_decode_encode(instr: Instruction)
    requires
        instr.wf(),
    ensures
        0 <= encode_spec(instr) < 0x10000,
        decode_spec(encode_spec(instr) as u16) == Some(instr),
{
    let (a, b, c, d) = nibbles_of(instr);
    lemma_nibbles_of(instr);
    lemma_nibbles(a, b, c, d);
}

/// Decodes the instruction word `op`; `None` where it matches no defined
/// pattern.
pub fn decode(op: u16) -> (r: Option<Instruction>)
    ensures
        r == decode_spec(op),
        r.is_some() ==> r.unwrap().wf(),
{
    proof {
        lemma_split(op);
    }
    let a: u16 = op / 4096;
    let x: u8 = ((op / 256) % 16) as u8;
    let y: u8 = ((op / 16) % 16) as u8;
    let d: u16 = op % 16;
    let byte: u8 = (op % 256) as u8;
    let addr: u16 = op % 4096;
    match a {
        0x0 => match op {
            0x00E0 => Some(Instruction::Cls),
            0x00EE => Some(Instruction::Ret),
            _ => None,
        },
        0x1 => Some(Instruction::Jp { addr }),
        0x2 => Some(Instruction::Call { addr }),
        0x3 => Some(Instruction::SeByte { x, byte }),
        0x4 => Some(Instruction::SneByte { x, byte }),
        0x5 => if d == 0 {
            Some(Instruction::SeReg { x, y })
        } else {
            None
        },
        0x6 => Some(Instruction::LdByte { x, byte }),
        0x7 => Some(Instruction::AddByte { x, byte }),
        0x8 => match d {
            0x0 => Some(Instruction::LdReg { x, y }),
            0x1 => Some(Instruction::Or { x, y }),
            0x2 => Some(Instruction::And { x, y }),
            0x3 => Some(Instruction::Xor { x, y }),
            0x4 => Some(Instruction::AddReg { x, y }),
            0x5 => Some(Instruction::Sub { x, y }),
            0x6 => Some(Instruction::Shr { x, y }),
            0x7 => Some(Instruction::Subn { x, y }),
            0xE => Some(Instruction::Shl { x, y }),
            _ => None,
        },
        0x9 => if d == 0 {
            Some(Instruction::SneReg { x, y })
        } else {
            None
        },
        0xA => Some(Instruction::LdIndex { addr }),
        0xB => Some(Instruction::JpV0 { addr }),
        0xC => Some(Instruction::Rnd { x, byte }),
        0xD => Some(Instruction::Drw { x, y, rows: d as u8 }),
        0xE => match byte {
            0x9E => Some(Instruction::Skp { x }),
            0xA1 => Some(Instruction::Sknp { x }),
            _ => None,
        },
        _ => match byte {
            0x07 => Some(Instruction::LdFromDelay { x }),
            0x0A => Some(Instruction::LdKey { x }),
            0x15 => Some(Instruction::LdDelay { x }),
            0x18 => Some(Instruction::LdSound { x }),
            0x1E => Some(Instruction::AddIndex { x }),
            0x29 => Some(Instruction::LdGlyph { x }),
            0x33 => Some(Instruction::LdBcd { x }),
            0x55 => Some(Instruction::StoreRegs { x }),
            0x65 => Some(Instruction::LoadRegs { x }),
            _ => None,
        },
    }
}

} // verus!
