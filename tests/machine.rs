use chip8_emu::{decode, Chip8, Chip8Error, Instruction, SCREEN_HEIGHT, SCREEN_WIDTH};

const FONT: [u8; 80] = [
    0xF0, 0x90, 0x90, 0x90, 0xF0, 0x20, 0x60, 0x20, 0x20, 0x70, 0xF0, 0x10, 0xF0, 0x80, 0xF0,
    0xF0, 0x10, 0xF0, 0x10, 0xF0, 0x90, 0x90, 0xF0, 0x10, 0x10, 0xF0, 0x80, 0xF0, 0x10, 0xF0,
    0xF0, 0x80, 0xF0, 0x90, 0xF0, 0xF0, 0x10, 0x20, 0x40, 0x40, 0xF0, 0x90, 0xF0, 0x90, 0xF0,
    0xF0, 0x90, 0xF0, 0x10, 0xF0, 0xF0, 0x90, 0xF0, 0x90, 0x90, 0xE0, 0x90, 0xE0, 0x90, 0xE0,
    0xF0, 0x80, 0x80, 0x80, 0xF0, 0xE0, 0x90, 0x90, 0x90, 0xE0, 0xF0, 0x80, 0xF0, 0x80, 0xF0,
    0xF0, 0x80, 0xF0, 0x80, 0x80,
];

fn machine_with(program: &[u8]) -> Chip8 {
    let mut chip = Chip8::new();
    chip.load(program).unwrap();
    chip
}

fn run(chip: &mut Chip8, steps: usize) {
    for _ in 0..steps {
        chip.tick_with_random(0).unwrap();
    }
}

fn assert_fresh(chip: &Chip8) {
    for a in 0..80 {
        assert_eq!(chip.memory_at(a), FONT[a]);
    }
    for a in 80..4096 {
        assert_eq!(chip.memory_at(a), 0);
    }
    assert_eq!(chip.program_counter(), 0x200);
    assert_eq!(chip.index_register(), 0);
    for r in 0..16 {
        assert_eq!(chip.register(r), 0);
    }
    assert_eq!(chip.delay_timer(), 0);
    assert_eq!(chip.sound_timer(), 0);
    assert_eq!(chip.stack_depth(), 0);
    assert_eq!(chip.get_display().len(), SCREEN_WIDTH * SCREEN_HEIGHT);
    assert!(chip.get_display().iter().all(|p| !*p));
    assert!(!chip.is_beeping());
}

#[test]
fn fresh_machine_state() {
    assert_fresh(&Chip8::new());
}

#[test]
fn reset_restores_fresh_state() {
    // set V3, draw a glyph, call a subroutine that sets the sound timer
    let mut chip = machine_with(&[0x63, 0x07, 0xA0, 0x00, 0xD0, 0x05, 0x22, 0x0A, 0x00, 0x00, 0xF3, 0x18]);
    chip.keypress(4, true).unwrap();
    run(&mut chip, 5);
    assert_eq!(chip.stack_depth(), 1);
    assert!(chip.is_beeping());
    chip.reset();
    assert_fresh(&chip);
    assert_eq!(chip.memory_at(0x200), 0);
}

#[test]
fn add_immediate_wraps_without_flag() {
    // VF = 0x07, V2 = 0xFF, V2 += 1
    let mut chip = machine_with(&[0x6F, 0x07, 0x62, 0xFF, 0x72, 0x01]);
    run(&mut chip, 3);
    assert_eq!(chip.register(2), 0x00);
    assert_eq!(chip.register(0xF), 0x07);
}

#[test]
fn add_registers_sets_carry() {
    let mut chip = machine_with(&[0x60, 0xFF, 0x61, 0x01, 0x80, 0x14]);
    run(&mut chip, 3);
    assert_eq!(chip.register(0), 0x00);
    assert_eq!(chip.register(0xF), 1);

    let mut chip = machine_with(&[0x60, 0x01, 0x61, 0x01, 0x80, 0x14]);
    run(&mut chip, 3);
    assert_eq!(chip.register(0), 0x02);
    assert_eq!(chip.register(0xF), 0);
}

#[test]
fn subtract_sets_no_borrow_flag() {
    let mut chip = machine_with(&[0x60, 0x05, 0x61, 0x03, 0x80, 0x15]);
    run(&mut chip, 3);
    assert_eq!(chip.register(0), 0x02);
    assert_eq!(chip.register(0xF), 1);

    let mut chip = machine_with(&[0x60, 0x03, 0x61, 0x05, 0x80, 0x15]);
    run(&mut chip, 3);
    assert_eq!(chip.register(0), 0xFE);
    assert_eq!(chip.register(0xF), 0);
}

#[test]
fn reverse_subtract_and_shifts() {
    // V0 = 3, V1 = 5, V0 = V1 - V0
    let mut chip = machine_with(&[0x60, 0x03, 0x61, 0x05, 0x80, 0x17]);
    run(&mut chip, 3);
    assert_eq!(chip.register(0), 0x02);
    assert_eq!(chip.register(0xF), 1);

    // V0 = 0x81, shift right, then V1 = 0x81, shift left
    let mut chip = machine_with(&[0x60, 0x81, 0x80, 0x06, 0x61, 0x81, 0x81, 0x0E]);
    run(&mut chip, 2);
    assert_eq!(chip.register(0), 0x40);
    assert_eq!(chip.register(0xF), 1);
    run(&mut chip, 2);
    assert_eq!(chip.register(1), 0x02);
    assert_eq!(chip.register(0xF), 1);
}

#[test]
fn logic_operations() {
    let mut chip = machine_with(&[0x60, 0x0C, 0x61, 0x0A, 0x62, 0x0C, 0x63, 0x0C, 0x80, 0x11, 0x82, 0x12, 0x83, 0x13, 0x84, 0x10]);
    run(&mut chip, 8);
    assert_eq!(chip.register(0), 0x0E);
    assert_eq!(chip.register(2), 0x08);
    assert_eq!(chip.register(3), 0x06);
    assert_eq!(chip.register(4), 0x0A);
}

#[test]
fn skip_advances_by_four_or_two() {
    // V0 = 5; skip if V0 == 5 (taken)
    let mut chip = machine_with(&[0x60, 0x05, 0x30, 0x05]);
    run(&mut chip, 1);
    let before = chip.program_counter();
    run(&mut chip, 1);
    assert_eq!(chip.program_counter(), before + 4);

    // V0 = 5; skip if V0 == 6 (not taken)
    let mut chip = machine_with(&[0x60, 0x05, 0x30, 0x06]);
    run(&mut chip, 1);
    let before = chip.program_counter();
    run(&mut chip, 1);
    assert_eq!(chip.program_counter(), before + 2);

    // skip if V0 != V1 (not taken), skip if V0 == V1 (taken)
    let mut chip = machine_with(&[0x90, 0x10, 0x50, 0x10]);
    run(&mut chip, 1);
    assert_eq!(chip.program_counter(), 0x202);
    run(&mut chip, 1);
    assert_eq!(chip.program_counter(), 0x206);
}

#[test]
fn skip_on_keys() {
    // V0 = 3; skip if key V0 pressed; skip if key V0 released
    let mut chip = machine_with(&[0x60, 0x03, 0xE0, 0x9E, 0x00, 0x00, 0xE0, 0xA1]);
    chip.keypress(3, true).unwrap();
    run(&mut chip, 2);
    assert_eq!(chip.program_counter(), 0x206);
    run(&mut chip, 1);
    assert_eq!(chip.program_counter(), 0x208);
}

#[test]
fn draw_and_collision() {
    // I = 0x300 holds 0xFF; draw 8x1 at (0, 0) twice
    let mut program = vec![0xA3, 0x00, 0xD0, 0x01, 0xD0, 0x01];
    program.resize(0x101, 0);
    program[0x100] = 0xFF;
    let mut chip = machine_with(&program);
    run(&mut chip, 2);
    let display = chip.get_display();
    assert_eq!(display.iter().filter(|p| **p).count(), 8);
    assert!(display[..8].iter().all(|p| *p));
    assert_eq!(chip.register(0xF), 0);
    run(&mut chip, 1);
    assert!(chip.get_display().iter().all(|p| !*p));
    assert_eq!(chip.register(0xF), 1);
}

#[test]
fn draw_wraps_around_edges() {
    // glyph 0 at (62, 30): columns 62, 63, 0, 1 and rows 30, 31, 0, 1, 2
    let mut chip = machine_with(&[0x60, 0x3E, 0x61, 0x1E, 0xA0, 0x00, 0xD0, 0x15]);
    run(&mut chip, 4);
    let display = chip.get_display();
    assert_eq!(display.iter().filter(|p| **p).count(), 14);
    assert!(display[62 + 64 * 30]);
    assert!(display[1 + 64 * 30]);
    assert!(display[62 + 64 * 2]);
    assert!(display[1 + 64 * 2]);
    assert!(!display[63 + 64 * 31]);
    assert_eq!(chip.register(0xF), 0);
}

#[test]
fn clear_screen() {
    let mut chip = machine_with(&[0xA0, 0x00, 0xD0, 0x05, 0x00, 0xE0]);
    run(&mut chip, 2);
    assert!(chip.get_display().iter().any(|p| *p));
    run(&mut chip, 1);
    assert!(chip.get_display().iter().all(|p| !*p));
}

#[test]
fn call_then_return() {
    // 0x200: CALL 0x206; 0x202: NOP; 0x206: RET
    let mut chip = machine_with(&[0x22, 0x06, 0x00, 0x00, 0x00, 0x00, 0x00, 0xEE]);
    run(&mut chip, 1);
    assert_eq!(chip.program_counter(), 0x206);
    assert_eq!(chip.stack_depth(), 1);
    assert_eq!(chip.tick_with_random(0), Ok(Instruction::Return));
    assert_eq!(chip.program_counter(), 0x202);
    assert_eq!(chip.stack_depth(), 0);
}

#[test]
fn wait_for_key() {
    // V0 = 9; DT = V0; wait for a key into V1
    let mut chip = machine_with(&[0x60, 0x09, 0xF0, 0x15, 0xF1, 0x0A]);
    run(&mut chip, 2);
    run(&mut chip, 1);
    assert_eq!(chip.program_counter(), 0x204);
    assert_eq!(chip.register(1), 9);
    run(&mut chip, 1);
    assert_eq!(chip.program_counter(), 0x204);
    chip.keypress(0xB, true).unwrap();
    run(&mut chip, 1);
    assert_eq!(chip.program_counter(), 0x206);
    assert_eq!(chip.register(1), 0xB);
}

#[test]
fn timers_count_down_and_stop_at_zero() {
    // V0 = 3; DT = V0; ST = V0
    let mut chip = machine_with(&[0x60, 0x03, 0xF0, 0x15, 0xF0, 0x18, 0xF2, 0x07]);
    run(&mut chip, 3);
    assert!(chip.is_beeping());
    chip.tick_timers();
    assert_eq!(chip.delay_timer(), 2);
    assert_eq!(chip.sound_timer(), 2);
    for _ in 0..10 {
        chip.tick_timers();
    }
    assert_eq!(chip.delay_timer(), 0);
    assert_eq!(chip.sound_timer(), 0);
    assert!(!chip.is_beeping());
    run(&mut chip, 1);
    assert_eq!(chip.register(2), 0);
}

#[test]
fn end_to_end_add() {
    let mut chip = machine_with(&[0x60, 0x0A, 0x61, 0x05, 0x80, 0x14]);
    run(&mut chip, 3);
    assert_eq!(chip.register(0), 0x0F);
    assert_eq!(chip.register(1), 0x05);
    assert_eq!(chip.register(0xF), 0);
    assert_eq!(chip.program_counter(), 0x200 + 6);
}

#[test]
fn binary_coded_decimal() {
    // V0 = 254; I = 0x300; store digits
    let mut chip = machine_with(&[0x60, 0xFE, 0xA3, 0x00, 0xF0, 0x33]);
    run(&mut chip, 3);
    assert_eq!(chip.memory_at(0x300), 2);
    assert_eq!(chip.memory_at(0x301), 5);
    assert_eq!(chip.memory_at(0x302), 4);
}

#[test]
fn store_and_load_registers() {
    // V0..V2 = 1, 2, 3; I = 0x300; store V0..V2; V0..V2 = 0; I = 0x300; load V0..V1
    let mut chip = machine_with(&[
        0x60, 0x01, 0x61, 0x02, 0x62, 0x03, 0xA3, 0x00, 0xF2, 0x55, 0x60, 0x00, 0x61, 0x00, 0x62,
        0x00, 0xF1, 0x65,
    ]);
    run(&mut chip, 9);
    assert_eq!(chip.memory_at(0x300), 1);
    assert_eq!(chip.memory_at(0x301), 2);
    assert_eq!(chip.memory_at(0x302), 3);
    assert_eq!(chip.memory_at(0x303), 0);
    assert_eq!(chip.register(0), 1);
    assert_eq!(chip.register(1), 2);
    assert_eq!(chip.register(2), 0);
}

#[test]
fn index_register_operations() {
    // V0 = 0x0A; I = 0xFFF; I += V0; I = glyph of V0
    let mut chip = machine_with(&[0x60, 0x0A, 0xAF, 0xFF, 0xF0, 0x1E, 0xF0, 0x29]);
    run(&mut chip, 3);
    assert_eq!(chip.index_register(), 0x1009);
    run(&mut chip, 1);
    assert_eq!(chip.index_register(), 50);
}

#[test]
fn jumps() {
    // JMP 0x206; 0x206: V0 = 4; JMP V0 + 0x200
    let mut chip = machine_with(&[0x12, 0x06, 0x00, 0x00, 0x00, 0x00, 0x60, 0x04, 0xB2, 0x00]);
    run(&mut chip, 1);
    assert_eq!(chip.program_counter(), 0x206);
    run(&mut chip, 2);
    assert_eq!(chip.program_counter(), 0x204);
}

#[test]
fn random_byte_is_masked() {
    let mut chip = machine_with(&[0xC3, 0x0F, 0xC4, 0xF0]);
    assert_eq!(chip.tick_with_random(0xAB), Ok(Instruction::Random { x: 3, imm: 0x0F }));
    assert_eq!(chip.register(3), 0x0B);
    chip.tick().unwrap();
    assert_eq!(chip.register(4) & 0x0F, 0);
}

#[test]
fn load_rejects_oversized_program() {
    let mut chip = Chip8::new();
    assert_eq!(chip.load(&vec![1u8; 4096 - 0x200 + 1]), Err(Chip8Error::MemoryOverflow));
    assert_eq!(chip.memory_at(0x200), 0);
    assert_eq!(chip.load(&vec![1u8; 4096 - 0x200]), Ok(()));
    assert_eq!(chip.memory_at(4095), 1);
}

#[test]
fn keypress_rejects_bad_index() {
    let mut chip = Chip8::new();
    assert_eq!(chip.keypress(16, true), Err(Chip8Error::IndexOutOfRange));
    assert_eq!(chip.keypress(15, true), Ok(()));
}

#[test]
fn stack_errors() {
    let mut chip = machine_with(&[0x00, 0xEE]);
    assert_eq!(chip.tick_with_random(0), Err(Chip8Error::StackUnderflow));
    assert_eq!(chip.program_counter(), 0x202);

    // CALL 0x200 forever: the seventeenth call overflows
    let mut chip = machine_with(&[0x22, 0x00]);
    run(&mut chip, 16);
    assert_eq!(chip.stack_depth(), 16);
    assert_eq!(chip.tick_with_random(0), Err(Chip8Error::StackOverflow));
    assert_eq!(chip.stack_depth(), 16);
}

#[test]
fn address_and_instruction_errors() {
    // jump to the last byte of memory: the fetch runs off the end
    let mut chip = machine_with(&[0x1F, 0xFF]);
    run(&mut chip, 1);
    assert_eq!(chip.tick_with_random(0), Err(Chip8Error::AddressOutOfRange));
    assert_eq!(chip.program_counter(), 0xFFF);

    let mut chip = machine_with(&[0x51, 0x23]);
    assert_eq!(chip.tick_with_random(0), Err(Chip8Error::UnsupportedInstruction(0x5123)));

    // I = 0xFFE; store three digits
    let mut chip = machine_with(&[0xAF, 0xFE, 0xF0, 0x33]);
    run(&mut chip, 1);
    assert_eq!(chip.tick_with_random(0), Err(Chip8Error::AddressOutOfRange));

    // V0 = 16; skip if key V0 pressed
    let mut chip = machine_with(&[0x60, 0x10, 0xE0, 0x9E]);
    run(&mut chip, 1);
    assert_eq!(chip.tick_with_random(0), Err(Chip8Error::IndexOutOfRange));
}

#[test]
fn decode_patterns() {
    assert_eq!(decode(0x0000), Some(Instruction::Nop));
    assert_eq!(decode(0x00E0), Some(Instruction::ClearScreen));
    assert_eq!(decode(0x00EE), Some(Instruction::Return));
    assert_eq!(decode(0x0123), None);
    assert_eq!(decode(0x2ABC), Some(Instruction::Call { addr: 0xABC }));
    assert_eq!(decode(0xD12F), Some(Instruction::Draw { x: 1, y: 2, rows: 0xF }));
    assert_eq!(decode(0x8AB6), Some(Instruction::ShiftRight { x: 0xA }));
    assert_eq!(decode(0x8AB8), None);
    assert_eq!(decode(0xE1A1), Some(Instruction::SkipKeyReleased { x: 1 }));
    assert_eq!(decode(0xF265), Some(Instruction::LoadRegs { x: 2 }));
    assert_eq!(decode(0xF266), None);
}
