use chip8::machine::{wrapping_difference, wrapping_sum, Chip8, LoadError, CHIP8_FONTSET};
use chip8::model::{Fault, Status, StepError};

fn machine(program: &[u8]) -> Chip8 {
    let mut chip = Chip8::new();
    chip.load_rom(program).unwrap();
    chip
}

fn run(chip: &mut Chip8, steps: usize) {
    for _ in 0..steps {
        assert_eq!(chip.step_with(0), Ok(Status::Running));
    }
}

#[test]
fn new_machine_is_zeroed_with_font() {
    let chip = Chip8::new();
    assert_eq!(chip.regs(), [0u8; 16]);
    assert_eq!(chip.pc(), 0x200);
    assert_eq!(chip.index(), 0);
    assert_eq!(chip.stack_depth(), 0);
    assert_eq!(chip.delay_timer(), 0);
    assert_eq!(chip.sound_timer(), 0);
    assert_eq!(chip.status(), Status::Running);
    let memory = chip.memory();
    assert_eq!(&memory[..80], &CHIP8_FONTSET[..]);
    assert!(memory[80..].iter().all(|b| *b == 0));
    assert_eq!(&memory[0..5], &[0xF0, 0x90, 0x90, 0x90, 0xF0]);
    assert_eq!(&memory[75..80], &[0xF0, 0x80, 0xF0, 0x80, 0x80]);
}

#[test]
fn load_rom_copies_image_to_program_start() {
    let mut chip = Chip8::new();
    assert_eq!(chip.load_rom(&[0x12, 0x34, 0x56, 0x78]), Ok(()));
    let memory = chip.memory();
    assert_eq!(&memory[0x200..0x204], &[0x12, 0x34, 0x56, 0x78]);
    assert_eq!(memory[0x1FF], 0);
    assert_eq!(memory[0x204], 0);
    assert_eq!(&memory[..80], &CHIP8_FONTSET[..]);
    assert_eq!(chip.pc(), 0x200);
}

#[test]
fn load_rom_rejects_odd_length() {
    let mut chip = Chip8::new();
    assert_eq!(chip.load_rom(&[0x12, 0x34, 0x56]), Err(LoadError::OddLength));
    assert!(chip.memory()[0x200..].iter().all(|b| *b == 0));
    assert_eq!(chip.load_rom(&[0x12]), Err(LoadError::OddLength));
    assert_eq!(chip.load_rom(&vec![1u8; 3329]), Err(LoadError::OddLength));
}

#[test]
fn load_rom_rejects_image_that_reaches_display() {
    let mut chip = Chip8::new();
    assert_eq!(chip.load_rom(&vec![1u8; 3330]), Err(LoadError::TooLarge));
    assert!(chip.memory()[0x200..].iter().all(|b| *b == 0));
    assert_eq!(chip.load_rom(&vec![7u8; 3328]), Ok(()));
    let memory = chip.memory();
    assert!(memory[0x200..0xF00].iter().all(|b| *b == 7));
    assert!(memory[0xF00..].iter().all(|b| *b == 0));
    assert_eq!(chip.load_rom(&[]), Ok(()));
}

#[test]
fn end_to_end_add() {
    let mut chip = machine(&[0x60, 0x20, 0x70, 0x40, 0x62, 0x90, 0x80, 0x24]);
    run(&mut chip, 4);
    assert_eq!(chip.regs()[0], 0xF0);
    assert_eq!(chip.regs()[2], 0x90);
    assert_eq!(chip.regs()[0xF], 0);
    assert_eq!(chip.pc(), 0x208);
}

#[test]
fn load_then_add_wraps_and_keeps_flag() {
    // VF := 7, V3 := 0xF0, V3 += 0x20
    let mut chip = machine(&[0x6F, 0x07, 0x63, 0xF0, 0x73, 0x20]);
    run(&mut chip, 3);
    assert_eq!(chip.regs()[3], 0x10);
    assert_eq!(chip.regs()[0xF], 7);
    // on VF itself the sum is what remains
    let mut chip = machine(&[0x6F, 0xFF, 0x7F, 0x02]);
    run(&mut chip, 2);
    assert_eq!(chip.regs()[0xF], 0x01);
}

#[test]
fn add_sets_carry() {
    let mut chip = machine(&[0x60, 0xFF, 0x61, 0x01, 0x80, 0x14]);
    run(&mut chip, 3);
    assert_eq!(chip.regs()[0], 0x00);
    assert_eq!(chip.regs()[0xF], 1);
    let mut chip = machine(&[0x60, 0xFE, 0x61, 0x01, 0x80, 0x14]);
    run(&mut chip, 3);
    assert_eq!(chip.regs()[0], 0xFF);
    assert_eq!(chip.regs()[0xF], 0);
}

#[test]
fn add_into_flag_register_keeps_the_flag() {
    // VF := 0xFF, V1 := 1, VF += V1: the carry wins over the sum
    let mut chip = machine(&[0x6F, 0xFF, 0x61, 0x01, 0x8F, 0x14]);
    run(&mut chip, 3);
    assert_eq!(chip.regs()[0xF], 1);
    // VF := 2, V1 := 3: no carry, so VF is 0 and not 5
    let mut chip = machine(&[0x6F, 0x02, 0x61, 0x03, 0x8F, 0x14]);
    run(&mut chip, 3);
    assert_eq!(chip.regs()[0xF], 0);
}

#[test]
fn sub_sets_no_borrow() {
    let mut chip = machine(&[0x60, 0x05, 0x61, 0x03, 0x80, 0x15]);
    run(&mut chip, 3);
    assert_eq!(chip.regs()[0], 0x02);
    assert_eq!(chip.regs()[0xF], 1);
    let mut chip = machine(&[0x60, 0x03, 0x61, 0x05, 0x80, 0x15]);
    run(&mut chip, 3);
    assert_eq!(chip.regs()[0], 0xFE);
    assert_eq!(chip.regs()[0xF], 0);
    let mut chip = machine(&[0x60, 0x03, 0x61, 0x03, 0x80, 0x15]);
    run(&mut chip, 3);
    assert_eq!(chip.regs()[0], 0x00);
    assert_eq!(chip.regs()[0xF], 1);
}

#[test]
fn sub_reads_flag_register_before_writing_it() {
    // V0 := 9, VF := 4, V0 -= VF
    let mut chip = machine(&[0x60, 0x09, 0x6F, 0x04, 0x80, 0xF5]);
    run(&mut chip, 3);
    assert_eq!(chip.regs()[0], 0x05);
    assert_eq!(chip.regs()[0xF], 1);
}

#[test]
fn subn_sets_no_borrow() {
    let mut chip = machine(&[0x60, 0x03, 0x61, 0x05, 0x80, 0x17]);
    run(&mut chip, 3);
    assert_eq!(chip.regs()[0], 0x02);
    assert_eq!(chip.regs()[0xF], 1);
    let mut chip = machine(&[0x60, 0x05, 0x61, 0x03, 0x80, 0x17]);
    run(&mut chip, 3);
    assert_eq!(chip.regs()[0], 0xFE);
    assert_eq!(chip.regs()[0xF], 0);
    let mut chip = machine(&[0x60, 0x05, 0x61, 0x05, 0x80, 0x17]);
    run(&mut chip, 3);
    assert_eq!(chip.regs()[0], 0x00);
    assert_eq!(chip.regs()[0xF], 1);
}

#[test]
fn shift_right_takes_vy() {
    for before in [0x00u8, 0x92, 0xFF] {
        let mut chip = machine(&[0x63, before, 0x64, 0x55, 0x83, 0x46]);
        run(&mut chip, 3);
        assert_eq!(chip.regs()[3], 0x2A);
        assert_eq!(chip.regs()[4], 0x55);
        assert_eq!(chip.regs()[0xF], 1);
    }
    let mut chip = machine(&[0x64, 0x54, 0x83, 0x46]);
    run(&mut chip, 2);
    assert_eq!(chip.regs()[3], 0x2A);
    assert_eq!(chip.regs()[0xF], 0);
}

#[test]
fn shift_left_takes_vy() {
    let mut chip = machine(&[0x63, 0x92, 0x64, 0x80, 0x83, 0x4E]);
    run(&mut chip, 3);
    assert_eq!(chip.regs()[3], 0x00);
    assert_eq!(chip.regs()[0xF], 1);
    let mut chip = machine(&[0x63, 0x92, 0x64, 0x7A, 0x83, 0x4E]);
    run(&mut chip, 3);
    assert_eq!(chip.regs()[3], 0xF4);
    assert_eq!(chip.regs()[0xF], 0);
}

#[test]
fn move_or_and_xor_leave_flag() {
    let mut chip = machine(&[
        0x6F, 0x09, 0x60, 0xCC, 0x61, 0xAA, 0x82, 0x00, 0x83, 0x00, 0x84, 0x00, 0x85, 0x10, 0x82,
        0x11, 0x83, 0x12, 0x84, 0x13,
    ]);
    run(&mut chip, 10);
    let regs = chip.regs();
    assert_eq!(regs[2], 0xEE);
    assert_eq!(regs[3], 0x88);
    assert_eq!(regs[4], 0x66);
    assert_eq!(regs[5], 0xAA);
    assert_eq!(regs[0xF], 9);
}

#[test]
fn skips() {
    // 3XNN taken, then not taken
    let mut chip = machine(&[0x60, 0x11, 0x30, 0x11, 0x00, 0x00, 0x30, 0x12, 0x61, 0x01]);
    run(&mut chip, 2);
    assert_eq!(chip.pc(), 0x206);
    run(&mut chip, 1);
    assert_eq!(chip.pc(), 0x208);
    // 4XNN
    let mut chip = machine(&[0x60, 0x11, 0x40, 0x12, 0x00, 0x00, 0x40, 0x11]);
    run(&mut chip, 2);
    assert_eq!(chip.pc(), 0x206);
    run(&mut chip, 1);
    assert_eq!(chip.pc(), 0x208);
    // 5XY0
    let mut chip = machine(&[0x60, 0x11, 0x61, 0x11, 0x50, 0x10, 0x00, 0x00, 0x50, 0x20]);
    run(&mut chip, 3);
    assert_eq!(chip.pc(), 0x208);
    run(&mut chip, 1);
    assert_eq!(chip.pc(), 0x20A);
    // 9XY0
    let mut chip = machine(&[0x60, 0x11, 0x61, 0x11, 0x90, 0x20, 0x00, 0x00, 0x90, 0x10]);
    run(&mut chip, 3);
    assert_eq!(chip.pc(), 0x208);
    run(&mut chip, 1);
    assert_eq!(chip.pc(), 0x20A);
}

#[test]
fn jump_and_jump_with_offset() {
    let mut chip = machine(&[0x1A, 0xBC]);
    run(&mut chip, 1);
    assert_eq!(chip.pc(), 0xABC);
    let mut chip = machine(&[0x60, 0x10, 0xB3, 0x00]);
    run(&mut chip, 2);
    assert_eq!(chip.pc(), 0x310);
    let mut chip = machine(&[0x60, 0xFF, 0xBF, 0xFF]);
    run(&mut chip, 2);
    assert_eq!(chip.pc(), 0x10FE);
}

#[test]
fn call_then_return() {
    // 0x200: call 0x206; 0x202: ld v1, 1; 0x206: ld v0, 7; 0x208: ret
    let mut chip = machine(&[0x22, 0x06, 0x61, 0x01, 0x00, 0x00, 0x60, 0x07, 0x00, 0xEE]);
    run(&mut chip, 1);
    assert_eq!(chip.pc(), 0x206);
    assert_eq!(chip.stack_depth(), 1);
    run(&mut chip, 2);
    assert_eq!(chip.pc(), 0x202);
    assert_eq!(chip.stack_depth(), 0);
    run(&mut chip, 1);
    assert_eq!(chip.regs()[0], 7);
    assert_eq!(chip.regs()[1], 1);
}

#[test]
fn nested_calls_return_in_reverse() {
    // 0x200: call 0x204; 0x202: jp 0x202; 0x204: call 0x208; 0x206: ret; 0x208: ret
    let mut chip = machine(&[0x22, 0x04, 0x12, 0x02, 0x22, 0x08, 0x00, 0xEE, 0x00, 0xEE]);
    run(&mut chip, 2);
    assert_eq!(chip.pc(), 0x208);
    assert_eq!(chip.stack_depth(), 2);
    run(&mut chip, 1);
    assert_eq!(chip.pc(), 0x206);
    run(&mut chip, 1);
    assert_eq!(chip.pc(), 0x202);
    assert_eq!(chip.stack_depth(), 0);
    assert_eq!(chip.step_with(0), Ok(Status::Halted));
}

#[test]
fn stack_overflow_is_fatal() {
    // call 0x200 forever
    let mut chip = machine(&[0x22, 0x00]);
    run(&mut chip, 16);
    assert_eq!(chip.stack_depth(), 16);
    let regs = chip.regs();
    let expected = Err(StepError { fault: Fault::StackOverflow, opcode: 0x2200, pc: 0x200 });
    assert_eq!(chip.step_with(0), expected);
    assert_eq!(chip.step_with(0), expected);
    assert_eq!(chip.stack_depth(), 16);
    assert_eq!(chip.pc(), 0x200);
    assert_eq!(chip.regs(), regs);
}

#[test]
fn stack_underflow_is_fatal() {
    let mut chip = machine(&[0x00, 0xEE]);
    let expected = Err(StepError { fault: Fault::StackUnderflow, opcode: 0x00EE, pc: 0x200 });
    assert_eq!(chip.step_with(0), expected);
    assert_eq!(chip.pc(), 0x200);
    assert_eq!(chip.stack_depth(), 0);
    assert_eq!(chip.process_instruction(), expected);
}

#[test]
fn unknown_opcode_is_fatal() {
    for (hi, lo) in [(0x00, 0x00), (0x01, 0x23), (0x51, 0x21), (0x81, 0x28), (0x81, 0x2F), (0x91, 0x21), (0xE1, 0x9F), (0xF1, 0x00), (0xFF, 0xFF)] {
        let mut chip = machine(&[0x60, 0x01, hi, lo]);
        run(&mut chip, 1);
        let opcode = (hi as u16) << 8 | lo as u16;
        let expected = Err(StepError { fault: Fault::UnknownOpcode, opcode, pc: 0x202 });
        assert_eq!(chip.step_with(0), expected);
        assert_eq!(chip.pc(), 0x202);
        assert_eq!(chip.regs()[0], 1);
        assert_eq!(chip.process_instructions(5), expected);
    }
}

#[test]
fn fetch_beyond_memory_is_fatal() {
    // jp 0xFFF
    let mut chip = machine(&[0x1F, 0xFF]);
    run(&mut chip, 1);
    let expected = Err(StepError { fault: Fault::FetchOutOfRange, opcode: 0, pc: 0xFFF });
    assert_eq!(chip.step_with(0), expected);
    assert_eq!(chip.pc(), 0xFFF);
}

#[test]
fn self_jump_halts() {
    let mut chip = machine(&[0x12, 0x00]);
    assert_eq!(chip.step_with(0), Ok(Status::Halted));
    assert_eq!(chip.status(), Status::Halted);
    assert_eq!(chip.pc(), 0x200);
    assert_eq!(chip.step_with(0), Ok(Status::Halted));
    assert_eq!(chip.process_instruction(), Ok(Status::Halted));
    assert_eq!(chip.pc(), 0x200);
}

#[test]
fn driver_run_stops_at_self_jump() {
    // v0 := 1, v0 += 1, jp self, v0 += 1
    let mut chip = machine(&[0x60, 0x01, 0x70, 0x01, 0x12, 0x04, 0x70, 0x01]);
    assert_eq!(chip.process_instructions(1000), Ok(Status::Halted));
    assert_eq!(chip.regs()[0], 2);
    assert_eq!(chip.pc(), 0x204);
    assert_eq!(chip.process_instructions(1000), Ok(Status::Halted));
    assert_eq!(chip.regs()[0], 2);
}

#[test]
fn driver_run_takes_at_most_count_steps() {
    // v0 += 1, jp 0x200
    let mut chip = machine(&[0x70, 0x01, 0x12, 0x00]);
    assert_eq!(chip.process_instructions(0), Ok(Status::Running));
    assert_eq!(chip.regs()[0], 0);
    assert_eq!(chip.process_instructions(7), Ok(Status::Running));
    assert_eq!(chip.regs()[0], 4);
    assert_eq!(chip.pc(), 0x202);
}

#[test]
fn index_register() {
    let mut chip = machine(&[0xAF, 0xFF, 0x60, 0x02, 0xF0, 0x1E]);
    run(&mut chip, 1);
    assert_eq!(chip.index(), 0xFFF);
    run(&mut chip, 2);
    assert_eq!(chip.index(), 0x1001);
}

#[test]
fn glyph_lookup_masks_digit() {
    let mut chip = machine(&[0x60, 0x0A, 0xF0, 0x29, 0x60, 0x1F, 0xF0, 0x29, 0x60, 0xF0, 0xF0, 0x29]);
    run(&mut chip, 2);
    assert_eq!(chip.index(), 50);
    run(&mut chip, 2);
    assert_eq!(chip.index(), 75);
    run(&mut chip, 2);
    assert_eq!(chip.index(), 0);
}

#[test]
fn bcd() {
    let mut chip = machine(&[0x60, 0xFE, 0xA3, 0x00, 0xF0, 0x33, 0x60, 0x07, 0xF0, 0x33]);
    run(&mut chip, 3);
    assert_eq!(&chip.memory()[0x300..0x303], &[2, 5, 4]);
    assert_eq!(chip.index(), 0x300);
    run(&mut chip, 2);
    assert_eq!(&chip.memory()[0x300..0x303], &[0, 0, 7]);
}

#[test]
fn bcd_wraps_at_end_of_memory() {
    let mut chip = machine(&[0x60, 0x7B, 0xAF, 0xFF, 0xF0, 0x33]);
    run(&mut chip, 3);
    let memory = chip.memory();
    assert_eq!(memory[0xFFF], 1);
    assert_eq!(memory[0x000], 2);
    assert_eq!(memory[0x001], 3);
}

#[test]
fn store_then_load_registers() {
    // v0..v3 := 1,2,3,4; I := 0x300; store v0..v2; zero v0..v2; I := 0x300; load v0..v2
    let mut chip = machine(&[
        0x60, 0x01, 0x61, 0x02, 0x62, 0x03, 0x63, 0x04, 0xA3, 0x00, 0xF2, 0x55, 0x60, 0x00, 0x61,
        0x00, 0x62, 0x00, 0xA3, 0x00, 0xF2, 0x65,
    ]);
    run(&mut chip, 6);
    assert_eq!(chip.index(), 0x303);
    assert_eq!(&chip.memory()[0x300..0x304], &[1, 2, 3, 0]);
    run(&mut chip, 3);
    assert_eq!(&chip.regs()[0..4], &[0, 0, 0, 4]);
    run(&mut chip, 2);
    assert_eq!(chip.index(), 0x303);
    assert_eq!(&chip.regs()[0..4], &[1, 2, 3, 4]);
}

#[test]
fn store_all_registers_includes_vf() {
    let mut chip = machine(&[0x60, 0x11, 0x6F, 0x22, 0xA4, 0x00, 0xFF, 0x55]);
    run(&mut chip, 4);
    let memory = chip.memory();
    assert_eq!(memory[0x400], 0x11);
    assert_eq!(memory[0x40F], 0x22);
    assert_eq!(memory[0x410], 0);
    assert_eq!(chip.index(), 0x410);
}

#[test]
fn load_single_register() {
    // I := 2 (font byte 0x90), load v0
    let mut chip = machine(&[0x61, 0x55, 0xA0, 0x02, 0xF0, 0x65]);
    run(&mut chip, 3);
    assert_eq!(chip.regs()[0], 0x90);
    assert_eq!(chip.regs()[1], 0x55);
    assert_eq!(chip.index(), 3);
}

#[test]
fn timers_set_read_and_tick() {
    let mut chip = machine(&[0x60, 0x02, 0xF0, 0x15, 0x61, 0x01, 0xF1, 0x18, 0xF2, 0x07]);
    run(&mut chip, 4);
    assert_eq!(chip.delay_timer(), 2);
    assert_eq!(chip.sound_timer(), 1);
    chip.tick();
    assert_eq!(chip.delay_timer(), 1);
    assert_eq!(chip.sound_timer(), 0);
    run(&mut chip, 1);
    assert_eq!(chip.regs()[2], 1);
    chip.tick();
    chip.tick();
    assert_eq!(chip.delay_timer(), 0);
    assert_eq!(chip.sound_timer(), 0);
    assert_eq!(chip.pc(), 0x20A);
}

#[test]
fn steps_do_not_tick() {
    let mut chip = machine(&[0x60, 0x09, 0xF0, 0x15, 0x70, 0x01, 0x70, 0x01, 0x70, 0x01]);
    run(&mut chip, 5);
    assert_eq!(chip.delay_timer(), 9);
}

#[test]
fn key_skips() {
    let mut keys = [false; 16];
    keys[0xA] = true;
    // EX9E with the key down, then up
    let mut chip = machine(&[0x60, 0x0A, 0xE0, 0x9E, 0x00, 0x00, 0x61, 0x0B, 0xE1, 0x9E]);
    chip.set_keys(keys);
    assert!(chip.key_pressed(0x0A));
    assert!(chip.key_pressed(0xFA));
    assert!(!chip.key_pressed(0x0B));
    run(&mut chip, 2);
    assert_eq!(chip.pc(), 0x206);
    run(&mut chip, 2);
    assert_eq!(chip.pc(), 0x20A);
    // EXA1, with a register value above 15
    let mut chip = machine(&[0x60, 0x3A, 0xE0, 0xA1, 0x61, 0x0B, 0xE1, 0xA1]);
    chip.set_keys(keys);
    run(&mut chip, 2);
    assert_eq!(chip.pc(), 0x204);
    run(&mut chip, 2);
    assert_eq!(chip.pc(), 0x20A);
}

#[test]
fn wait_for_key_suspends_until_latched() {
    let mut chip = machine(&[0xF3, 0x0A, 0x73, 0x01]);
    assert_eq!(chip.step_with(0), Ok(Status::AwaitingKey));
    assert_eq!(chip.pc(), 0x200);
    assert_eq!(chip.status(), Status::AwaitingKey);
    assert_eq!(chip.step_with(0), Ok(Status::AwaitingKey));
    assert_eq!(chip.process_instructions(10), Ok(Status::AwaitingKey));
    assert_eq!(chip.pc(), 0x200);
    assert_eq!(chip.regs()[3], 0);
    chip.latch_key(0x1C);
    assert_eq!(chip.status(), Status::Running);
    assert_eq!(chip.regs()[3], 0x0C);
    assert_eq!(chip.pc(), 0x202);
    run(&mut chip, 1);
    assert_eq!(chip.regs()[3], 0x0D);
}

#[test]
fn latch_without_wait_changes_nothing() {
    let mut chip = machine(&[0x60, 0x05]);
    chip.latch_key(3);
    assert_eq!(chip.pc(), 0x200);
    assert_eq!(chip.regs(), [0u8; 16]);
    assert_eq!(chip.status(), Status::Running);
}

#[test]
fn key_from_text() {
    assert_eq!(Chip8::wait_key_press("0"), Some(0));
    assert_eq!(Chip8::wait_key_press(" 15\n"), Some(15));
    assert_eq!(Chip8::wait_key_press("+7"), Some(7));
    assert_eq!(Chip8::wait_key_press("007"), Some(7));
    assert_eq!(Chip8::wait_key_press("16"), None);
    assert_eq!(Chip8::wait_key_press("256"), None);
    assert_eq!(Chip8::wait_key_press(""), None);
    assert_eq!(Chip8::wait_key_press("a"), None);
    assert_eq!(Chip8::wait_key_press("1 2"), None);
    assert_eq!(Chip8::wait_key_press("-1"), None);
}

#[test]
fn random_is_masked() {
    let mut chip = machine(&[0xC0, 0x0F, 0xC1, 0xF0, 0xC2, 0x00]);
    assert_eq!(chip.step_with(0xAB), Ok(Status::Running));
    assert_eq!(chip.regs()[0], 0x0B);
    assert_eq!(chip.step_with(0xAB), Ok(Status::Running));
    assert_eq!(chip.regs()[1], 0xA0);
    assert_eq!(chip.step_with(0xAB), Ok(Status::Running));
    assert_eq!(chip.regs()[2], 0x00);
}

#[test]
fn random_from_generator_is_masked() {
    let mut program = Vec::new();
    for _ in 0..64 {
        program.extend_from_slice(&[0xC0, 0x0F, 0xC1, 0x00]);
    }
    let mut chip = machine(&program);
    let mut seen = [false; 16];
    for _ in 0..64 {
        assert_eq!(chip.process_instruction(), Ok(Status::Running));
        assert!(chip.regs()[0] < 16);
        seen[chip.regs()[0] as usize] = true;
        assert_eq!(chip.process_instruction(), Ok(Status::Running));
        assert_eq!(chip.regs()[1], 0);
    }
    // sixty-four draws of sixteen values: one value alone is no random source
    assert!(seen.iter().filter(|s| **s).count() > 1);
}

#[test]
fn state_line() {
    let mut chip = machine(&[0x60, 0xAB, 0x6F, 0x01, 0xA1, 0x23, 0x22, 0x08, 0x00, 0xEE]);
    assert_eq!(
        chip.print_state(),
        "[ 00 00 00 00 00 00 00 00 00 00 00 00 00 00 00 00 ] PC: 0200, SP: 0000, I: 0000"
    );
    run(&mut chip, 4);
    assert_eq!(
        chip.print_state(),
        "[ ab 00 00 00 00 00 00 00 00 00 00 00 00 00 00 01 ] PC: 0208, SP: 0001, I: 0123"
    );
}

#[test]
fn bios_dump() {
    let chip = Chip8::new();
    let lines = chip.print_bios();
    assert_eq!(lines.len(), 65);
    assert_eq!(lines[0], "first 512 (0x200) bytes of memory:");
    assert_eq!(lines[1], "0x000000: f0 90 90 90 f0 20 60 20");
    assert_eq!(lines[2], "0x000008: 20 70 f0 10 f0 80 f0 f0");
    assert_eq!(lines[10], "0x000048: f0 80 f0 f0 80 f0 80 80");
    assert_eq!(lines[11], "0x000050: 00 00 00 00 00 00 00 00");
    assert_eq!(lines[64], "0x0001f8: 00 00 00 00 00 00 00 00");
}

#[test]
fn wrapping_arithmetic() {
    assert_eq!(wrapping_sum(0x20, 0x40), 0x60);
    assert_eq!(wrapping_sum(0xFF, 0x01), 0x00);
    assert_eq!(wrapping_sum(0xFF, 0xFF), 0xFE);
    assert_eq!(wrapping_difference(5, 3), 2);
    assert_eq!(wrapping_difference(3, 5), 0xFE);
    assert_eq!(wrapping_difference(0, 0xFF), 1);
}

#[test]
fn trace_of_next_step() {
    let mut chip = machine(&[0x60, 0x20, 0x1F, 0xFF]);
    assert_eq!(chip.trace_line(), Some("0200: 6020 LD V0, 32".to_string()));
    run(&mut chip, 1);
    assert_eq!(chip.trace_line(), Some("0202: 1fff JMP 0x0fff/4095".to_string()));
    run(&mut chip, 1);
    // no room for a word at 0xFFF
    assert_eq!(chip.trace_line(), None);
    let chip = Chip8::new();
    assert_eq!(chip.trace_line(), Some("0200: 0000 UNKNOWN INSTRUCTION: 0000".to_string()));
}
