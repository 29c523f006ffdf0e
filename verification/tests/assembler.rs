use chip8::assembler::{assemble, AsmError};
use chip8::text::{strip_comment, trim};

#[test]
fn check_comment_removal() {
    let mut s = "  org 0x7c00 ; hello world. the comment goes here";
    s = strip_comment(s);
    assert_eq!(s, "  org 0x7c00 ");
    s = trim(s);
    assert_eq!(s, "org 0x7c00");
}

#[test]
fn check_asm_0x0_cls_ret_sys() {
    assert_eq!(assemble("cls"), Ok(0x00e0));
    assert_eq!(assemble("ret"), Ok(0x00ee));
    assert_eq!(assemble("sys 291"), Ok(0x0123));
}

#[test]
fn check_asm_0x1_jp() {
    assert_eq!(assemble("jp 512"), Ok(0x1200));
    assert_eq!(assemble("jmp 4095"), Ok(0x1fff));
    assert_eq!(assemble("JP 4096"), Ok(0x1000));
    assert_eq!(assemble("  jp\t+7 ; loop"), Ok(0x1007));
}

#[test]
fn check_asm_0x2_call() {
    assert_eq!(assemble("call 768"), Ok(0x2300));
    assert_eq!(assemble("Call 65535"), Ok(0x2fff));
}

#[test]
fn check_asm_0x3_se() {
    assert_eq!(assemble("se 3 171"), Ok(0x33ab));
    assert_eq!(assemble("se 0 0"), Ok(0x3000));
}

#[test]
fn check_asm_0x4_sne() {
    assert_eq!(assemble("sne 15 255"), Ok(0x4fff));
    assert_eq!(assemble("SNE 1 2 3"), Ok(0x4102));
}

#[test]
fn check_asm_0x5_se() {
    // only the form with a byte is assembled
    assert_eq!(assemble("se 1 2"), Ok(0x3102));
}

#[test]
fn check_asm_0x6_ld() {
    assert_eq!(assemble("ld 1 2"), Ok(0x0000));
}

#[test]
fn check_asm_0x7_add() {
    assert_eq!(assemble("add 1 2"), Ok(0x0000));
}

#[test]
fn check_asm_0x8_ld_or_and_xor_add_sub_shr_subn_shl() {
    for line in ["ld 1 2", "or 1 2", "and 1 2", "xor 1 2", "add 1 2", "sub 1 2", "shr 1", "subn 1 2", "shl 1"] {
        assert_eq!(assemble(line), Ok(0x0000));
    }
}

#[test]
fn check_asm_0x9_sne() {
    // only the form with a byte is assembled
    assert_eq!(assemble("sne 1 2"), Ok(0x4102));
}

#[test]
fn check_asm_0xa_ld() {
    assert_eq!(assemble("ld i 512"), Ok(0x0000));
}

#[test]
fn check_asm_0xb_jp() {
    // a jump has one operand, the address
    assert_eq!(assemble("jp 0"), Ok(0x1000));
    assert_eq!(assemble("jp v0 512"), Err(AsmError::BadOperand));
}

#[test]
fn check_asm_0xc_rnd() {
    assert_eq!(assemble("rnd 1 15"), Ok(0x0000));
}

#[test]
fn check_asm_0xd_drw() {
    assert_eq!(assemble("drw 1 2 5"), Ok(0x0000));
}

#[test]
fn check_asm_0xe_skp_sknp() {
    assert_eq!(assemble("skp 1"), Ok(0x0000));
    assert_eq!(assemble("sknp 1"), Ok(0x0000));
}

#[test]
fn check_asm_0xf_ld_add() {
    assert_eq!(assemble("ld dt 1"), Ok(0x0000));
    assert_eq!(assemble("add i 1"), Ok(0x0000));
}

#[test]
fn asm_empty_line() {
    assert_eq!(assemble(""), Err(AsmError::Empty));
    assert_eq!(assemble("   \t "), Err(AsmError::Empty));
    assert_eq!(assemble(" ; cls"), Err(AsmError::Empty));
}

#[test]
fn asm_missing_operand() {
    assert_eq!(assemble("jp"), Err(AsmError::MissingOperand));
    assert_eq!(assemble("call ; 512"), Err(AsmError::MissingOperand));
    assert_eq!(assemble("se 1"), Err(AsmError::MissingOperand));
    assert_eq!(assemble("sne"), Err(AsmError::MissingOperand));
}

#[test]
fn asm_bad_operand() {
    assert_eq!(assemble("jp 0x200"), Err(AsmError::BadOperand));
    assert_eq!(assemble("jp 65536"), Err(AsmError::BadOperand));
    assert_eq!(assemble("jp -1"), Err(AsmError::BadOperand));
    assert_eq!(assemble("jp +"), Err(AsmError::BadOperand));
    assert_eq!(assemble("se 256 1"), Err(AsmError::BadOperand));
    assert_eq!(assemble("se 1 256"), Err(AsmError::BadOperand));
    assert_eq!(assemble("se 3, 5"), Err(AsmError::BadOperand));
}

#[test]
fn asm_register_out_of_range() {
    assert_eq!(assemble("se 16 1"), Err(AsmError::RegisterOutOfRange));
    assert_eq!(assemble("sne 255 1"), Err(AsmError::RegisterOutOfRange));
    // the register is judged before the byte is read
    assert_eq!(assemble("se 16"), Err(AsmError::RegisterOutOfRange));
}

#[test]
fn asm_unknown_word_is_zero() {
    assert_eq!(assemble("loop:"), Ok(0x0000));
    assert_eq!(assemble("org 0x7c00"), Ok(0x0000));
}

#[test]
fn asm_leading_zeros_and_wide_blanks() {
    assert_eq!(assemble("jp 0000000000000000000512"), Ok(0x1200));
    assert_eq!(assemble("\u{3000}jp\u{a0}512\u{2003}"), Ok(0x1200));
}

#[test]
fn trim_and_strip_edges() {
    assert_eq!(trim(""), "");
    assert_eq!(trim(" \t\r\n"), "");
    assert_eq!(trim("a b"), "a b");
    assert_eq!(trim("\u{2028}é \u{85}"), "é");
    assert_eq!(strip_comment("no comment"), "no comment");
    assert_eq!(strip_comment(";all"), "");
    assert_eq!(strip_comment("a;b;c"), "a");
    assert_eq!(strip_comment("é;ü"), "é");
}
