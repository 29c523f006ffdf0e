use chip8::disasm::{create_nn, create_nnn, disasm, disasm_inst};

#[test]
fn disasm_no_operand() {
    assert_eq!(disasm_inst(0x00E0), "CLS");
    assert_eq!(disasm_inst(0x00EE), "RET");
}

#[test]
fn disasm_addresses() {
    assert_eq!(disasm_inst(0x1200), "JMP 0x0200/512");
    assert_eq!(disasm_inst(0x2FFF), "CALL 0x0fff/4095");
    assert_eq!(disasm_inst(0xA000), "LD I, 0x0000/0");
    assert_eq!(disasm_inst(0xB0AB), "JMP V0, 0x00ab/171");
}

#[test]
fn disasm_register_and_byte() {
    assert_eq!(disasm_inst(0x3A10), "SE V10, 16");
    assert_eq!(disasm_inst(0x4FFF), "SNE V15, 255");
    assert_eq!(disasm_inst(0x6020), "LD V0, 32");
    assert_eq!(disasm_inst(0x7040), "ADD V0, 64");
    assert_eq!(disasm_inst(0xC10F), "RND V1, 15");
}

#[test]
fn disasm_two_registers() {
    assert_eq!(disasm_inst(0x5120), "SE V1, V2");
    assert_eq!(disasm_inst(0x8120), "LD V1, V2");
    assert_eq!(disasm_inst(0x8121), "OR V1, V2");
    assert_eq!(disasm_inst(0x8122), "AND V1, V2");
    assert_eq!(disasm_inst(0x8123), "XOR V1, V2");
    assert_eq!(disasm_inst(0x8024), "ADD V0, V2");
    assert_eq!(disasm_inst(0x8125), "SUB V1, V2");
    assert_eq!(disasm_inst(0x8346), "SHR V3");
    assert_eq!(disasm_inst(0x8127), "SUBN V1, V2");
    assert_eq!(disasm_inst(0x834E), "SHL V3");
    assert_eq!(disasm_inst(0x9CD0), "SNE V12, V13");
    assert_eq!(disasm_inst(0xD125), "DRW V1, V2, 5");
}

#[test]
fn disasm_keys_timers_memory() {
    assert_eq!(disasm_inst(0xE19E), "SKP V1");
    assert_eq!(disasm_inst(0xE1A1), "SKNP V1");
    assert_eq!(disasm_inst(0xF107), "LD V1, DT");
    assert_eq!(disasm_inst(0xF10A), "LD V1, K");
    assert_eq!(disasm_inst(0xF115), "LD DT, V1");
    assert_eq!(disasm_inst(0xF118), "LD ST, V1");
    assert_eq!(disasm_inst(0xF11E), "ADD I, V1");
    assert_eq!(disasm_inst(0xF129), "LD F, V1");
    assert_eq!(disasm_inst(0xF133), "LD B, V1");
    assert_eq!(disasm_inst(0xF155), "LD [I], V1");
    assert_eq!(disasm_inst(0xFE65), "LD V14, [I]");
}

#[test]
fn disasm_unknown() {
    assert_eq!(disasm_inst(0x0000), "UNKNOWN INSTRUCTION: 0000");
    assert_eq!(disasm_inst(0x0123), "UNKNOWN INSTRUCTION: 0123");
    assert_eq!(disasm_inst(0x5121), "UNKNOWN INSTRUCTION: 5121");
    assert_eq!(disasm_inst(0x812A), "UNKNOWN INSTRUCTION: 812a");
    assert_eq!(disasm_inst(0x9CD1), "UNKNOWN INSTRUCTION: 9cd1");
    assert_eq!(disasm_inst(0xE100), "UNKNOWN INSTRUCTION: e100");
    assert_eq!(disasm_inst(0xFFFF), "UNKNOWN INSTRUCTION: ffff");
}

#[test]
fn disasm_buffer() {
    assert_eq!(disasm(&[]).len(), 0);
    assert_eq!(disasm(&[0x00]).len(), 0);
    assert_eq!(disasm(&[0x00, 0xE0]), vec!["CLS".to_string()]);
    assert_eq!(disasm(&[0x00, 0xE0, 0x00]), vec!["CLS".to_string()]);
    assert_eq!(
        disasm(&[0x00, 0xE0, 0x12, 0x00]),
        vec!["CLS".to_string(), "JMP 0x0200/512".to_string()]
    );
    assert_eq!(
        disasm(&[0x60, 0x20, 0x70, 0x40, 0x12, 0x00, 0xFF]),
        vec!["LD V0, 32".to_string(), "ADD V0, 64".to_string(), "JMP 0x0200/512".to_string()]
    );
    assert_eq!(disasm(&[0u8; 4096]).len(), 2048);
}

#[test]
fn disasm_buffer_renders_last_word() {
    let lines = disasm(&[0x60, 0x20, 0xFF, 0xFF]);
    assert_eq!(lines.len(), 2);
    assert_eq!(lines[1], "UNKNOWN INSTRUCTION: ffff");
}

#[test]
fn nibbles_join() {
    assert_eq!(create_nn(0xA, 0xB), 0xAB);
    assert_eq!(create_nn(0, 0), 0);
    assert_eq!(create_nnn(0x1, 0x2, 0x3), 0x123);
    assert_eq!(create_nnn(0xF, 0xF, 0xF), 0xFFF);
    assert_eq!(create_nn(0x12, 0x3), 0x123);
}
