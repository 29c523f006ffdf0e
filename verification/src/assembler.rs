//! A line assembler for the instructions without register-to-register
//! operands: one line of text to one instruction word.

use vstd::prelude::*;
use crate::text::{
    chars_of, comment_start, decimal_spec, lowered, lowered_spec, parse_decimal, spells,
    strip_comment, views, words, words_spec,
};

verus! {

/// Why a line was not assembled.
#[derive(Clone, Copy, Debug, PartialEq, Eq, Structural)]
pub enum AsmError {
    /// The line holds no word before its comment.
    Empty,
    /// The mnemonic wants an operand that the line does not have.
    MissingOperand,
    /// An operand is no decimal number, or one too large for its kind.
    BadOperand,
    /// A register operand is above 15.
    RegisterOutOfRange,
}

/// The decimal operand in place `k` of `words`, at most `max`.
pub open spec fn operand_spec(words: Seq<Seq<char>>, k: int, max: nat) -> Result<nat, AsmError> {
    if words.len() <= k {
        Err(AsmError::MissingOperand)
    } else {
        match decimal_spec(words[k], max) {
            Some(n) => Ok(n),
            None => Err(AsmError::BadOperand),
        }
    }
}

/// The word of an instruction with an address operand: `base` with the low
/// twelve bits of the operand, a 16-bit number.
pub open spec fn address_word(words: Seq<Seq<char>>, base: nat) -> Result<u16, AsmError> {
    match operand_spec(words, 1, 0xFFFF) {
        Ok(addr) => Ok((base + addr % 4096) as u16),
        Err(e) => Err(e),
    }
}

/// The word of an instruction with a register and a byte operand: `base`
/// with the register in the second nibble and the byte below it. The
/// operands are read in order, so the first that is wrong is reported.
pub open spec fn register_byte_word(words: Seq<Seq<char>>, base: nat) -> Result<u16, AsmError> {
    match operand_spec(words, 1, 0xFF) {
        Err(e) => Err(e),
        Ok(x) => if x > 15 {
            Err(AsmError::RegisterOutOfRange)
        } else {
            match operand_spec(words, 2, 0xFF) {
                Err(e) => Err(e),
                Ok(byte) => Ok((base + x * 256 + byte) as u16),
            }
        },
    }
}

/// The instruction word that `line` assembles to. What follows the first
/// `;` is a comment; letters count as lower case; words are split at white
/// space and operands are decimal. `cls`, `ret`, `sys`, `jp` (or `jmp`),
/// `call`, `se` and `sne` with a byte are assembled; any other first word,
/// the remaining mnemonics included, gives the word 0.
pub open spec fn assemble_spec(line: Seq<char>) -> Result<u16, AsmError> {
    let words = words_spec(lowered_spec(line.take(comment_start(line, 0))));
    if words.len() == 0 {
        Err(AsmError::Empty)
    } else if words[0] == "cls"@ {
        Ok(0x00E0)
    } else if words[0] == "ret"@ {
        Ok(0x00EE)
    } else if words[0] == "sys"@ {
        address_word(words, 0x0000)
    } else if words[0] == "jp"@ || words[0] == "jmp"@ {
        address_word(words, 0x1000)
    } else if words[0] == "call"@ {
        address_word(words, 0x2000)
    } else if words[0] == "se"@ {
        register_byte_word(words, 0x3000)
    } else if words[0] == "sne"@ {
        register_byte_word(words, 0x4000)
    } else {
        Ok(0x0000)
    }
}

/// The decimal operand in place `k` of `words`, at most `max`.
fn operand(words: &Vec<Vec<char>>, k: usize, max: u32) -> (r: Result<u32, AsmError>)
    requires
        max <= 0xFFFF,
    ensures
        match operand_spec(views(words@), k as int, max as nat) {
            Ok(n) => r == Ok::<u32, AsmError>(n as u32) && n <= max,
            Err(e) => r == Err::<u32, AsmError>(e),
        },
{
    if words.len() <= k {
        return Err(AsmError::MissingOperand);
    }
    match parse_decimal(&words[k], max) {
        Some(n) => Ok(n),
        None => Err(AsmError::BadOperand),
    }
}

/// Assembles an instruction with an address operand.
fn address_instruction(words: &Vec<Vec<char>>, base: u16) -> (r: Result<u16, AsmError>)
    requires
        base <= 0xF000,
    ensures
        r == address_word(views(words@), base as nat),
{
    match operand(words, 1, 0xFFFF) {
        Ok(addr) => Ok(base + (addr % 4096) as u16),
        Err(e) => Err(e),
    }
}

/// Assembles an instruction with a register and a byte operand.
fn register_byte_instruction(words: &Vec<Vec<char>>, base: u16) -> (r: Result<u16, AsmError>)
    requires
        base <= 0xF000,
    ensures
        r == register_byte_word(views(words@), base as nat),
{
    let x: u32 = match operand(words, 1, 0xFF) {
        Ok(x) => x,
        Err(e) => {
            return Err(e);
        },
    };
    if x > 15 {
        return Err(AsmError::RegisterOutOfRange);
    }
    match operand(words, 2, 0xFF) {
        Ok(byte) => Ok(base + (x * 256 + byte) as u16),
        Err(e) => Err(e),
    }
}

/// Assembles one line to its instruction word.
pub fn assemble(s: &str) -> (r: Result<u16, AsmError>)
    ensures
        r == assemble_spec(s@),
{
    let line: &str = strip_comment(s);
    let text: Vec<char> = lowered(&chars_of(line));
    let all: Vec<Vec<char>> = words(&text);
    if all.len() == 0 {
        return Err(AsmError::Empty);
    }
    let mnemonic: &Vec<char> = &all[0];
    if spells(mnemonic, "cls") {
        Ok(0x00E0)
    } else if spells(mnemonic, "ret") {
        Ok(0x00EE)
    } else if spells(mnemonic, "sys") {
        address_instruction(&all, 0x0000)
    } else if spells(mnemonic, "jp") || spells(mnemonic, "jmp") {
        address_instruction(&all, 0x1000)
    } else if spells(mnemonic, "call") {
        address_instruction(&all, 0x2000)
    } else if spells(mnemonic, "se") {
        register_byte_instruction(&all, 0x3000)
    } else if spells(mnemonic, "sne") {
        register_byte_instruction(&all, 0x4000)
    } else {
        Ok(0x0000)
    }
}

} // verus!
