//! The disassembler: one line of text for each instruction word.

use vstd::prelude::*;
use vstd::string::*;
use crate::decode::{decode, decode_spec};
use crate::model::Instruction;
use crate::text::{append_decimal, append_hex, decimal_text, hex_text};

verus! {

/// An address as the disassembler writes it: `0x`, four hexadecimal
/// digits, `/` and the same number in decimal.
pub open spec fn address_text(addr: u16) -> Seq<char> {
    "0x"@ + hex_text(addr as nat, 4) + "/"@ + decimal_text(addr as nat)
}

/// `name`, a blank, and the register `Vx`.
pub open spec fn one_register_text(name: Seq<char>, x: u8) -> Seq<char> {
    name + " V"@ + decimal_text(x as nat)
}

/// `name`, the register `Vx` and the number `n`.
pub open spec fn register_number_text(name: Seq<char>, x: u8, n: u8) -> Seq<char> {
    name + " V"@ + decimal_text(x as nat) + ", "@ + decimal_text(n as nat)
}

/// `name` and the registers `Vx` and `Vy`.
pub open spec fn two_registers_text(name: Seq<char>, x: u8, y: u8) -> Seq<char> {
    name + " V"@ + decimal_text(x as nat) + ", V"@ + decimal_text(y as nat)
}

/// The line for the instruction `instr`: its mnemonic and operands.
/// Registers and bytes are written in decimal.
pub open spec fn instruction_text(instr: Instruction) -> Seq<char> {
    match instr {
        Instruction::Cls => "CLS"@,
        Instruction::Ret => "RET"@,
        Instruction::Jp { addr } => "JMP "@ + address_text(addr),
        Instruction::Call { addr } => "CALL "@ + address_text(addr),
        Instruction::SeByte { x, byte } => register_number_text("SE"@, x, byte),
        Instruction::SneByte { x, byte } => register_number_text("SNE"@, x, byte),
        Instruction::SeReg { x, y } => two_registers_text("SE"@, x, y),
        Instruction::LdByte { x, byte } => register_number_text("LD"@, x, byte),
        Instruction::AddByte { x, byte } => register_number_text("ADD"@, x, byte),
        Instruction::LdReg { x, y } => two_registers_text("LD"@, x, y),
        Instruction::Or { x, y } => two_registers_text("OR"@, x, y),
        Instruction::And { x, y } => two_registers_text("AND"@, x, y),
        Instruction::Xor { x, y } => two_registers_text("XOR"@, x, y),
        Instruction::AddReg { x, y } => two_registers_text("ADD"@, x, y),
        Instruction::Sub { x, y } => two_registers_text("SUB"@, x, y),
        Instruction::Shr { x, .. } => one_register_text("SHR"@, x),
        Instruction::Subn { x, y } => two_registers_text("SUBN"@, x, y),
        Instruction::Shl { x, .. } => one_register_text("SHL"@, x),
        Instruction::SneReg { x, y } => two_registers_text("SNE"@, x, y),
        Instruction::LdIndex { addr } => "LD I, "@ + address_text(addr),
        Instruction::JpV0 { addr } => "JMP V0, "@ + address_text(addr),
        Instruction::Rnd { x, byte } => register_number_text("RND"@, x, byte),
        Instruction::Drw { x, y, rows } => two_registers_text("DRW"@, x, y) + ", "@
            + decimal_text(rows as nat),
        Instruction::Skp { x } => one_register_text("SKP"@, x),
        Instruction::Sknp { x } => one_register_text("SKNP"@, x),
        Instruction::LdFromDelay { x } => one_register_text("LD"@, x) + ", DT"@,
        Instruction::LdKey { x } => one_register_text("LD"@, x) + ", K"@,
        Instruction::LdDelay { x } => one_register_text("LD DT,"@, x),
        Instruction::LdSound { x } => one_register_text("LD ST,"@, x),
        Instruction::AddIndex { x } => one_register_text("ADD I,"@, x),
        Instruction::LdGlyph { x } => one_register_text("LD F,"@, x),
        Instruction::LdBcd { x } => one_register_text("LD B,"@, x),
        Instruction::StoreRegs { x } => one_register_text("LD [I],"@, x),
        Instruction::LoadRegs { x } => one_register_text("LD"@, x) + ", [I]"@,
    }
}

/// The line for the instruction word `opcode`. A word that is no
/// instruction gives `UNKNOWN INSTRUCTION: ` and its four hexadecimal
/// digits.
pub open spec fn disasm_text(opcode: u16) -> Seq<char> {
    match decode_spec(opcode) {
        Some(instr) => instruction_text(instr),
        None => "UNKNOWN INSTRUCTION: "@ + hex_text(opcode as nat, 4),
    }
}

/// The nibbles `n1` and `n2` joined into a byte, `n1` above `n2`: for
/// nibbles that is `n1 * 16 + n2`.
pub fn create_nn(n1: u16, n2: u16) -> (r: u16)
    ensures
        r == (n1 << 4) | n2,
        n1 < 16 && n2 < 16 ==> r == n1 * 16 + n2,
{
    proof {
        assert(n1 < 16 && n2 < 16 ==> (n1 << 4) | n2 == n1 * 16 + n2) by (bit_vector);
    }
    (n1 << 4) | n2
}

/// The nibbles `n1`, `n2` and `n3` joined into an address, highest first:
/// for nibbles that is `n1 * 256 + n2 * 16 + n3`.
pub fn create_nnn(n1: u16, n2: u16, n3: u16) -> (r: u16)
    ensures
        r == (n1 << 8) | (n2 << 4) | n3,
        n1 < 16 && n2 < 16 && n3 < 16 ==> r == n1 * 256 + n2 * 16 + n3,
{
    proof {
        assert(n1 < 16 && n2 < 16 && n3 < 16 ==> (n1 << 8) | (n2 << 4) | n3 == n1 * 256 + n2 * 16
            + n3) by (bit_vector);
    }
    (n1 << 8) | (n2 << 4) | n3
}

fn append_address(out: &mut String, addr: u16)
    ensures
        final(out)@ == old(out)@ + address_text(addr),
{
    out.append("0x");
    append_hex(out, addr as u32, 4);
    out.append("/");
    append_decimal(out, addr);
    proof {
        assert(out@ =~= old(out)@ + address_text(addr));
    }
}

fn one_register(name: &str, x: u8) -> (out: String)
    ensures
        out@ == one_register_text(name@, x),
{
    let mut out: String = String::from_str(name);
    out.append(" V");
    append_decimal(&mut out, x as u16);
    out
}

fn register_number(name: &str, x: u8, n: u8) -> (out: String)
    ensures
        out@ == register_number_text(name@, x, n),
{
    let mut out: String = one_register(name, x);
    out.append(", ");
    append_decimal(&mut out, n as u16);
    out
}

fn two_registers(name: &str, x: u8, y: u8) -> (out: String)
    ensures
        out@ == two_registers_text(name@, x, y),
{
    let mut out: String = one_register(name, x);
    out.append(", V");
    append_decimal(&mut out, y as u16);
    out
}

fn with_address(name: &str, addr: u16) -> (out: String)
    ensures
        out@ == name@ + address_text(addr),
{
    let mut out: String = String::from_str(name);
    append_address(&mut out, addr);
    out
}

/// The line for the instruction `instr`.
pub fn instruction_line(instr: Instruction) -> (out: String)
    ensures
        out@ == instruction_text(instr),
{
    match instr {
        Instruction::Cls => String::from_str("CLS"),
        Instruction::Ret => String::from_str("RET"),
        Instruction::Jp { addr } => with_address("JMP ", addr),
        Instruction::Call { addr } => with_address("CALL ", addr),
        Instruction::SeByte { x, byte } => register_number("SE", x, byte),
        Instruction::SneByte { x, byte } => register_number("SNE", x, byte),
        Instruction::SeReg { x, y } => two_registers("SE", x, y),
        Instruction::LdByte { x, byte } => register_number("LD", x, byte),
        Instruction::AddByte { x, byte } => register_number("ADD", x, byte),
        Instruction::LdReg { x, y } => two_registers("LD", x, y),
        Instruction::Or { x, y } => two_registers("OR", x, y),
        Instruction::And { x, y } => two_registers("AND", x, y),
        Instruction::Xor { x, y } => two_registers("XOR", x, y),
        Instruction::AddReg { x, y } => two_registers("ADD", x, y),
        Instruction::Sub { x, y } => two_registers("SUB", x, y),
        Instruction::Shr { x, .. } => one_register("SHR", x),
        Instruction::Subn { x, y } => two_registers("SUBN", x, y),
        Instruction::Shl { x, .. } => one_register("SHL", x),
        Instruction::SneReg { x, y } => two_registers("SNE", x, y),
        Instruction::LdIndex { addr } => with_address("LD I, ", addr),
        Instruction::JpV0 { addr } => with_address("JMP V0, ", addr),
        Instruction::Rnd { x, byte } => register_number("RND", x, byte),
        Instruction::Drw { x, y, rows } => {
            let mut out: String = two_registers("DRW", x, y);
            out.append(", ");
            append_decimal(&mut out, rows as u16);
            out
        },
        Instruction::Skp { x } => one_register("SKP", x),
        Instruction::Sknp { x } => one_register("SKNP", x),
        Instruction::LdFromDelay { x } => one_register("LD", x).concat(", DT"),
        Instruction::LdKey { x } => one_register("LD", x).concat(", K"),
        Instruction::LdDelay { x } => one_register("LD DT,", x),
        Instruction::LdSound { x } => one_register("LD ST,", x),
        Instruction::AddIndex { x } => one_register("ADD I,", x),
        Instruction::LdGlyph { x } => one_register("LD F,", x),
        Instruction::LdBcd { x } => one_register("LD B,", x),
        Instruction::StoreRegs { x } => one_register("LD [I],", x),
        Instruction::LoadRegs { x } => one_register("LD", x).concat(", [I]"),
    }
}

/// The line for the instruction word `opcode`: mnemonic and operands, or
/// the words `UNKNOWN INSTRUCTION` and the word's digits where it is no
/// instruction.
pub fn disasm_inst(opcode: u16) -> (out: String)
    ensures
        out@ == disasm_text(opcode),
{
    match decode(opcode) {
        Some(instr) => instruction_line(instr),
        None => {
            let mut out: String = String::from_str("UNKNOWN INSTRUCTION: ");
            append_hex(&mut out, opcode as u32, 4);
            out
        },
    }
}

/// The lines for the instruction words in `buf`, one for each pair of
/// bytes with the high byte first, the last pair included. A single byte
/// left over at the end is no instruction word and gives no line.
pub fn disasm(buf: &[u8]) -> (lines: Vec<String>)
    ensures
        lines@.len() == buf@.len() / 2,
        forall|k: int|
            0 <= k < lines@.len() ==> (#[trigger] lines@[k])@ == disasm_text(
                (buf@[2 * k] * 256 + buf@[2 * k + 1]) as u16,
            ),
{
    let mut lines: Vec<String> = Vec::new();
    let mut at: usize = 0;
    while buf.len() - at >= 2
        invariant
            at <= buf@.len(),
            at == 2 * lines@.len(),
            forall|k: int|
                0 <= k < lines@.len() ==> (#[trigger] lines@[k])@ == disasm_text(
                    (buf@[2 * k] * 256 + buf@[2 * k + 1]) as u16,
                ),
        decreases buf@.len() - at,
    {
        let opcode: u16 = buf[at] as u16 * 256 + buf[at + 1] as u16;
        lines.push(disasm_inst(opcode));
        at += 2;
    }
    lines
}

} // verus!
