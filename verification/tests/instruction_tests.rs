use chip8::cpu::CPU;
use chip8::instruction::Instruction;

const NO_KEYS: [bool; 16] = [false; 16];

fn boot(rom: &[u8]) -> CPU {
    let mut cpu = CPU::new();
    cpu.load_memory(rom).expect("ROM fits in memory");
    cpu
}

fn run_cycles(cpu: &mut CPU, count: usize) {
    for _ in 0..count {
        cpu.emulate_cycle(NO_KEYS, 0).expect("cycle succeeds");
    }
}

#[test]
fn decode_covers_the_instruction_families() {
    assert_eq!(Instruction::decode(0x00E0), Some(Instruction::Cls));
    assert_eq!(Instruction::decode(0x00EE), Some(Instruction::Ret));
    assert_eq!(Instruction::decode(0x1ABC), Some(Instruction::Jump { nnn: 0xABC }));
    assert_eq!(Instruction::decode(0x2123), Some(Instruction::Call { nnn: 0x123 }));
    assert_eq!(Instruction::decode(0x3A7F), Some(Instruction::SkipEqImm { x: 0xA, kk: 0x7F }));
    assert_eq!(Instruction::decode(0x4A7F), Some(Instruction::SkipNeImm { x: 0xA, kk: 0x7F }));
    assert_eq!(Instruction::decode(0x5AB0), Some(Instruction::SkipEqReg { x: 0xA, y: 0xB }));
    assert_eq!(Instruction::decode(0x6C42), Some(Instruction::LoadImm { x: 0xC, kk: 0x42 }));
    assert_eq!(Instruction::decode(0x7C42), Some(Instruction::AddImm { x: 0xC, kk: 0x42 }));
    assert_eq!(Instruction::decode(0x8120), Some(Instruction::Mov { x: 1, y: 2 }));
    assert_eq!(Instruction::decode(0x8121), Some(Instruction::Or { x: 1, y: 2 }));
    assert_eq!(Instruction::decode(0x8122), Some(Instruction::And { x: 1, y: 2 }));
    assert_eq!(Instruction::decode(0x8123), Some(Instruction::Xor { x: 1, y: 2 }));
    assert_eq!(Instruction::decode(0x8124), Some(Instruction::Add { x: 1, y: 2 }));
    assert_eq!(Instruction::decode(0x8125), Some(Instruction::Sub { x: 1, y: 2 }));
    assert_eq!(Instruction::decode(0x8126), Some(Instruction::Shr { x: 1 }));
    assert_eq!(Instruction::decode(0x8127), Some(Instruction::SubInv { x: 1, y: 2 }));
    assert_eq!(Instruction::decode(0x812E), Some(Instruction::Shl { x: 1 }));
    assert_eq!(Instruction::decode(0x9AB0), Some(Instruction::SkipNeReg { x: 0xA, y: 0xB }));
    assert_eq!(Instruction::decode(0xA789), Some(Instruction::SetIndex { nnn: 0x789 }));
    assert_eq!(Instruction::decode(0xB789), Some(Instruction::JumpOffset { nnn: 0x789 }));
    assert_eq!(Instruction::decode(0xC377), Some(Instruction::Random { x: 3, kk: 0x77 }));
    assert_eq!(Instruction::decode(0xD125), Some(Instruction::Draw { x: 1, y: 2, n: 5 }));
    assert_eq!(Instruction::decode(0xE39E), Some(Instruction::SkipKeyPressed { x: 3 }));
    assert_eq!(Instruction::decode(0xE3A1), Some(Instruction::SkipKeyReleased { x: 3 }));
    assert_eq!(Instruction::decode(0xF207), Some(Instruction::GetDelay { x: 2 }));
    assert_eq!(Instruction::decode(0xF20A), Some(Instruction::AwaitKey { x: 2 }));
    assert_eq!(Instruction::decode(0xF215), Some(Instruction::SetDelay { x: 2 }));
    assert_eq!(Instruction::decode(0xF218), Some(Instruction::SetSound { x: 2 }));
    assert_eq!(Instruction::decode(0xF21E), Some(Instruction::AddIndex { x: 2 }));
    assert_eq!(Instruction::decode(0xF229), Some(Instruction::LoadSprite { x: 2 }));
    assert_eq!(Instruction::decode(0xF233), Some(Instruction::Bcd { x: 2 }));
    assert_eq!(Instruction::decode(0xF255), Some(Instruction::RegDump { x: 2 }));
    assert_eq!(Instruction::decode(0xF265), Some(Instruction::RegLoad { x: 2 }));
}

#[test]
fn decode_rejects_unknown_patterns() {
    assert_eq!(Instruction::decode(0x0000), None);
    assert_eq!(Instruction::decode(0x0123), None);
    assert_eq!(Instruction::decode(0x5AB1), None);
    assert_eq!(Instruction::decode(0x8128), None);
    assert_eq!(Instruction::decode(0x9AB5), None);
    assert_eq!(Instruction::decode(0xE300), None);
    assert_eq!(Instruction::decode(0xF200), None);
    assert_eq!(Instruction::decode(0xFFFF), None);
}

#[test]
fn add_with_carry_sets_the_flag() {
    // V4 <- 200, V5 <- 100, V4 += V5: 300 mod 256 = 44, carry
    let mut cpu = boot(&[0x64, 0xC8, 0x65, 0x64, 0x84, 0x54]);
    run_cycles(&mut cpu, 3);
    assert_eq!(cpu.registers[4], 44);
    assert_eq!(cpu.registers[15], 1);
}

#[test]
fn add_without_carry_clears_the_flag() {
    // make VF dirty first, then a small sum
    let mut cpu = boot(&[0x6F, 0x01, 0x64, 0x07, 0x65, 0x08, 0x84, 0x54]);
    run_cycles(&mut cpu, 4);
    assert_eq!(cpu.registers[4], 15);
    assert_eq!(cpu.registers[15], 0);
}

#[test]
fn sub_without_borrow_sets_the_flag() {
    // V4 <- 20, V5 <- 10, V4 -= V5
    let mut cpu = boot(&[0x64, 0x14, 0x65, 0x0A, 0x84, 0x55]);
    run_cycles(&mut cpu, 3);
    assert_eq!(cpu.registers[4], 10);
    assert_eq!(cpu.registers[15], 1);
}

#[test]
fn sub_with_borrow_wraps_and_clears_the_flag() {
    // V4 <- 10, V5 <- 20, V4 -= V5: (10 - 20) mod 256 = 246, borrow
    let mut cpu = boot(&[0x6F, 0x01, 0x64, 0x0A, 0x65, 0x14, 0x84, 0x55]);
    run_cycles(&mut cpu, 4);
    assert_eq!(cpu.registers[4], 246);
    assert_eq!(cpu.registers[15], 0);
}

#[test]
fn sub_of_equal_values_counts_as_no_borrow() {
    let mut cpu = boot(&[0x64, 0x0A, 0x65, 0x0A, 0x84, 0x55]);
    run_cycles(&mut cpu, 3);
    assert_eq!(cpu.registers[4], 0);
    assert_eq!(cpu.registers[15], 1);
}

#[test]
fn subn_reverses_the_operands() {
    // V4 <- 10, V5 <- 20, V4 <- V5 - V4
    let mut cpu = boot(&[0x64, 0x0A, 0x65, 0x14, 0x84, 0x57]);
    run_cycles(&mut cpu, 3);
    assert_eq!(cpu.registers[4], 10);
    assert_eq!(cpu.registers[15], 1);
}

#[test]
fn add_immediate_truncates_without_flag() {
    // VF <- 1 first to see that 7xkk leaves it alone
    let mut cpu = boot(&[0x6F, 0x01, 0x64, 0xFF, 0x74, 0x03]);
    run_cycles(&mut cpu, 3);
    assert_eq!(cpu.registers[4], 2);
    assert_eq!(cpu.registers[15], 1);
}

#[test]
fn bitwise_ops_have_no_flag_effect() {
    let mut cpu = boot(&[
        0x6F, 0x01, // VF <- 1
        0x60, 0b1100, 0x61, 0b1010, 0x80, 0x11, // V0 |= V1
        0x62, 0b1100, 0x63, 0b1010, 0x82, 0x32, // V2 &= V3
        0x64, 0b1100, 0x65, 0b1010, 0x84, 0x53, // V4 ^= V5
    ]);
    run_cycles(&mut cpu, 10);
    assert_eq!(cpu.registers[0], 0b1110);
    assert_eq!(cpu.registers[2], 0b1000);
    assert_eq!(cpu.registers[4], 0b0110);
    assert_eq!(cpu.registers[15], 1);
}

#[test]
fn shifts_report_the_dropped_bit() {
    let mut cpu = boot(&[0x60, 0x05, 0x80, 0x06]);
    run_cycles(&mut cpu, 2);
    assert_eq!(cpu.registers[0], 2);
    assert_eq!(cpu.registers[15], 1);

    let mut cpu = boot(&[0x60, 0x81, 0x80, 0x0E]);
    run_cycles(&mut cpu, 2);
    assert_eq!(cpu.registers[0], 0x02);
    assert_eq!(cpu.registers[15], 1);

    let mut cpu = boot(&[0x60, 0x44, 0x80, 0x0E]);
    run_cycles(&mut cpu, 2);
    assert_eq!(cpu.registers[0], 0x88);
    assert_eq!(cpu.registers[15], 0);
}

#[test]
fn mov_copies_the_source_register() {
    let mut cpu = boot(&[0x65, 0x37, 0x80, 0x50]);
    run_cycles(&mut cpu, 2);
    assert_eq!(cpu.registers[0], 0x37);
    assert_eq!(cpu.registers[5], 0x37);
}

#[test]
fn register_skips_compare_two_registers() {
    // 5xy0 taken on equal registers
    let mut cpu = boot(&[0x60, 0x07, 0x61, 0x07, 0x50, 0x10]);
    run_cycles(&mut cpu, 3);
    assert_eq!(cpu.pc, 0x208);
    // 5xy0 not taken on unequal registers
    let mut cpu = boot(&[0x60, 0x07, 0x61, 0x08, 0x50, 0x10]);
    run_cycles(&mut cpu, 3);
    assert_eq!(cpu.pc, 0x206);
    // 4xkk taken on a mismatch
    let mut cpu = boot(&[0x60, 0x07, 0x40, 0x08]);
    run_cycles(&mut cpu, 2);
    assert_eq!(cpu.pc, 0x206);
}

#[test]
fn skip_instructions_move_the_program_counter_by_four() {
    // 3xkk taken
    let mut cpu = boot(&[0x60, 0x07, 0x30, 0x07]);
    run_cycles(&mut cpu, 2);
    assert_eq!(cpu.pc, 0x206);
    // 3xkk not taken
    let mut cpu = boot(&[0x60, 0x07, 0x30, 0x08]);
    run_cycles(&mut cpu, 2);
    assert_eq!(cpu.pc, 0x204);
    // 9xy0 taken on different registers
    let mut cpu = boot(&[0x60, 0x07, 0x61, 0x08, 0x90, 0x10]);
    run_cycles(&mut cpu, 3);
    assert_eq!(cpu.pc, 0x208);
}

#[test]
fn key_skip_tests_the_key_selected_by_vx() {
    // V0 <- 5, then skip if key V0 pressed
    let mut cpu = boot(&[0x60, 0x05, 0xE0, 0x9E]);
    cpu.emulate_cycle(NO_KEYS, 0).unwrap();
    let mut keys = NO_KEYS;
    keys[5] = true;
    cpu.emulate_cycle(keys, 0).unwrap();
    assert_eq!(cpu.pc, 0x206);

    // released variant: not pressed, so it skips
    let mut cpu = boot(&[0x60, 0x05, 0xE0, 0xA1]);
    run_cycles(&mut cpu, 2);
    assert_eq!(cpu.pc, 0x206);
}

#[test]
fn jump_with_offset_adds_v0() {
    let mut cpu = boot(&[0x60, 0x0A, 0xB3, 0x00]);
    run_cycles(&mut cpu, 2);
    assert_eq!(cpu.pc, 0x30A);
}

#[test]
fn delay_timer_round_trips_through_fx07() {
    // V5 <- 9, delay <- V5, V2 <- delay
    let mut cpu = boot(&[0x65, 0x09, 0xF5, 0x15, 0xF2, 0x07]);
    run_cycles(&mut cpu, 3);
    assert_eq!(cpu.registers[2], 9);
}

#[test]
fn add_index_wraps_and_flags_past_the_last_address() {
    // I <- 0xFFF, V0 <- 2, I += V0
    let mut cpu = boot(&[0xAF, 0xFF, 0x60, 0x02, 0xF0, 0x1E]);
    run_cycles(&mut cpu, 3);
    assert_eq!(cpu.i, 1);
    assert_eq!(cpu.registers[15], 1);

    // no overflow: flag cleared
    let mut cpu = boot(&[0x6F, 0x01, 0xA1, 0x00, 0x60, 0x02, 0xF0, 0x1E]);
    run_cycles(&mut cpu, 4);
    assert_eq!(cpu.i, 0x102);
    assert_eq!(cpu.registers[15], 0);
}

#[test]
fn font_address_is_five_bytes_per_glyph() {
    let mut cpu = boot(&[0x60, 0x0A, 0xF0, 0x29]);
    run_cycles(&mut cpu, 2);
    assert_eq!(cpu.i, 50);
    // the glyph for hexadecimal A
    assert_eq!(&cpu.ram[50..55], &[0xF0, 0x90, 0xF0, 0x90, 0x90]);
}

#[test]
fn bcd_writes_three_decimal_digits() {
    // V7 <- 234, I <- 0x300, BCD of V7
    let mut cpu = boot(&[0x67, 0xEA, 0xA3, 0x00, 0xF7, 0x33]);
    run_cycles(&mut cpu, 3);
    assert_eq!(cpu.ram[0x300], 2);
    assert_eq!(cpu.ram[0x301], 3);
    assert_eq!(cpu.ram[0x302], 4);
}

#[test]
fn register_dump_and_load_round_trip() {
    // V0 <- 0xAA, V1 <- 0xBB, I <- 0x350, dump V0..=V1
    let mut cpu = boot(&[0x60, 0xAA, 0x61, 0xBB, 0xA3, 0x50, 0xF1, 0x55]);
    run_cycles(&mut cpu, 4);
    assert_eq!(cpu.ram[0x350], 0xAA);
    assert_eq!(cpu.ram[0x351], 0xBB);
    assert_eq!(cpu.ram[0x352], 0x00);

    // zero the registers, then load them back from memory
    let mut cpu = boot(&[
        0x60, 0xAA, 0x61, 0xBB, 0xA3, 0x50, 0xF1, 0x55, 0x60, 0x00, 0x61, 0x00, 0xF1, 0x65,
    ]);
    run_cycles(&mut cpu, 7);
    assert_eq!(cpu.registers[0], 0xAA);
    assert_eq!(cpu.registers[1], 0xBB);
}

#[test]
fn draw_xors_pixels_and_reports_collisions() {
    // sprite 0b11000000 at ROM offset 8 (address 0x208), drawn at (0, 0)
    let mut cpu = boot(&[0xA2, 0x08, 0xD0, 0x01, 0xD0, 0x01, 0x00, 0x00, 0xC0, 0x00]);
    cpu.emulate_cycle(NO_KEYS, 0).unwrap();
    let st = cpu.emulate_cycle(NO_KEYS, 0).unwrap();
    assert!(st.updated_vram);
    assert_eq!(cpu.vram[0], 1);
    assert_eq!(cpu.vram[1], 1);
    assert_eq!(cpu.vram[2], 0);
    assert_eq!(cpu.registers[15], 0);
    // the identical draw erases everything and reports the collision
    cpu.emulate_cycle(NO_KEYS, 0).unwrap();
    assert!(cpu.vram.iter().all(|&v| v == 0));
    assert_eq!(cpu.registers[15], 1);
}

#[test]
fn drawing_twice_restores_the_framebuffer() {
    // a 3-row sprite at (5, 6), drawn twice
    let mut cpu = boot(&[
        0x6A, 0x05, 0x6B, 0x06, 0xA2, 0x0C, 0xDA, 0xB3, 0xDA, 0xB3, 0x00, 0x00, 0xFF, 0x81, 0xFF,
    ]);
    run_cycles(&mut cpu, 3);
    let before: Vec<u8> = cpu.vram.clone();
    run_cycles(&mut cpu, 1);
    assert!(cpu.vram.iter().any(|&v| v != 0));
    assert_eq!(cpu.registers[15], 0);
    run_cycles(&mut cpu, 1);
    // every affected pixel is back to its pre-draw value
    assert_eq!(cpu.vram, before);
    // and the second draw collided with everything the first one lit
    assert_eq!(cpu.registers[15], 1);
}

#[test]
fn draw_wraps_around_both_edges() {
    // VA <- 63, VB <- 31, an 8x1 sprite of all ones at address 0x208
    let mut cpu = boot(&[0x6A, 0x3F, 0x6B, 0x1F, 0xA2, 0x08, 0xDA, 0xB1, 0xFF, 0x00]);
    run_cycles(&mut cpu, 4);
    // row 31, columns 63 and 0..=6
    assert_eq!(cpu.vram[31 * 64 + 63], 1);
    for col in 0..7usize {
        assert_eq!(cpu.vram[31 * 64 + col], 1);
    }
    // nothing anywhere else
    let lit: usize = cpu.vram.iter().filter(|&&v| v != 0).count();
    assert_eq!(lit, 8);
    assert_eq!(cpu.registers[15], 0);
}

#[test]
fn vertical_wrap_draws_on_the_top_row() {
    // VA <- 0, VB <- 31, two rows: the second lands on row 0
    let mut cpu = boot(&[0x6A, 0x00, 0x6B, 0x1F, 0xA2, 0x08, 0xDA, 0xB2, 0x80, 0x80]);
    run_cycles(&mut cpu, 4);
    assert_eq!(cpu.vram[31 * 64], 1);
    assert_eq!(cpu.vram[0], 1);
    let lit: usize = cpu.vram.iter().filter(|&&v| v != 0).count();
    assert_eq!(lit, 2);
}
