use chip8::cpu::Chip8Error;
use chip8::cpu::CPU;

const NO_KEYS: [bool; 16] = [false; 16];

fn boot(rom: &[u8]) -> CPU {
    let mut cpu = CPU::new();
    cpu.load_memory(rom).expect("ROM fits in memory");
    cpu
}

fn run_cycles(cpu: &mut CPU, count: usize) {
    for _ in 0..count {
        cpu.emulate_cycle(NO_KEYS, 0).expect("cycle succeeds");
    }
}

#[test]
fn power_on_state() {
    let cpu = CPU::new();
    assert_eq!(cpu.pc, 0x200);
    assert_eq!(cpu.sp, 0);
    assert_eq!(cpu.i, 0);
    assert!(cpu.registers.iter().all(|&v| v == 0));
    assert!(cpu.vram.iter().all(|&v| v == 0));
    assert!(!cpu.vram_flag);
    assert!(!cpu.await_keypad);
    assert_eq!(cpu.delay_timer, 0);
    assert_eq!(cpu.sound_timer, 0);
}

#[test]
fn font_is_loaded_at_the_bottom_of_memory() {
    let cpu = CPU::new();
    // glyph 0
    assert_eq!(&cpu.ram[0..5], &[0xF0, 0x90, 0x90, 0x90, 0xF0]);
    // glyph 1
    assert_eq!(&cpu.ram[5..10], &[0x20, 0x60, 0x20, 0x20, 0x70]);
    // glyph F
    assert_eq!(&cpu.ram[75..80], &[0xF0, 0x80, 0xF0, 0x80, 0x80]);
    // everything behind the font starts zeroed
    assert!(cpu.ram[80..].iter().all(|&v| v == 0));
}

#[test]
fn rom_is_loaded_at_the_start_point() {
    let cpu = boot(&[0xAB, 0xCD, 0xEF]);
    assert_eq!(cpu.ram[0x200], 0xAB);
    assert_eq!(cpu.ram[0x201], 0xCD);
    assert_eq!(cpu.ram[0x202], 0xEF);
    assert_eq!(cpu.ram[0x203], 0x00);
}

#[test]
fn rom_of_maximum_size_is_accepted() {
    let mut cpu = CPU::new();
    let rom = vec![0x55u8; 4096 - 512];
    assert_eq!(cpu.load_memory(&rom), Ok(()));
    assert_eq!(cpu.ram[4095], 0x55);
}

#[test]
fn oversized_rom_is_rejected_whole() {
    let mut cpu = CPU::new();
    let rom = vec![0x55u8; 4096 - 512 + 1];
    assert_eq!(cpu.load_memory(&rom), Err(Chip8Error::RomTooLarge));
    // nothing was copied
    assert!(cpu.ram[512..].iter().all(|&v| v == 0));
}

#[test]
fn load_add_scenario() {
    // V0 <- 5, V1 <- 10, V0 += V1
    let mut cpu = boot(&[0x60, 0x05, 0x61, 0x0A, 0x80, 0x14]);
    run_cycles(&mut cpu, 3);
    assert_eq!(cpu.registers[0], 15);
    assert_eq!(cpu.registers[15], 0);
    assert_eq!(cpu.pc, 0x200 + 6);
}

#[test]
fn clear_screen_zeroes_the_framebuffer_and_reports_dirty() {
    // draw one sprite row (the font glyph 0 at I = 0), then clear
    let mut cpu = boot(&[0xD0, 0x01, 0x00, 0xE0]);
    let first = cpu.emulate_cycle(NO_KEYS, 0).unwrap();
    assert!(first.updated_vram);
    assert!(cpu.vram.iter().any(|&v| v != 0));
    let second = cpu.emulate_cycle(NO_KEYS, 0).unwrap();
    assert!(second.updated_vram);
    assert!(cpu.vram.iter().all(|&v| v == 0));
}

#[test]
fn await_keypad_scenario() {
    // F30A: await a key into V3; then V4 <- 0x42
    let mut cpu = boot(&[0xF3, 0x0A, 0x64, 0x42]);
    cpu.emulate_cycle(NO_KEYS, 0).unwrap();
    assert!(cpu.await_keypad);
    assert_eq!(cpu.pc, 0x202);

    // no key pressed: still parked, the program counter does not move
    cpu.emulate_cycle(NO_KEYS, 0).unwrap();
    assert!(cpu.await_keypad);
    assert_eq!(cpu.pc, 0x202);

    // key 7 pressed: committed to V3, no fetch this cycle
    let mut keys = NO_KEYS;
    keys[7] = true;
    cpu.emulate_cycle(keys, 0).unwrap();
    assert!(!cpu.await_keypad);
    assert_eq!(cpu.registers[3], 7);
    assert_eq!(cpu.pc, 0x202);

    // normal fetch resumes on the next call
    cpu.emulate_cycle(NO_KEYS, 0).unwrap();
    assert_eq!(cpu.registers[4], 0x42);
    assert_eq!(cpu.pc, 0x204);
}

#[test]
fn await_keypad_takes_the_lowest_pressed_key() {
    let mut cpu = boot(&[0xF0, 0x0A]);
    cpu.emulate_cycle(NO_KEYS, 0).unwrap();
    let mut keys = NO_KEYS;
    keys[0xC] = true;
    keys[0x2] = true;
    keys[0x9] = true;
    cpu.emulate_cycle(keys, 0).unwrap();
    assert_eq!(cpu.registers[0], 0x2);
}

#[test]
fn timer_gate_holds_under_fast_calls() {
    // V5 <- 5, delay timer <- V5, then jump in place forever
    let mut cpu = boot(&[0x65, 0x05, 0xF5, 0x15, 0x12, 0x04]);
    cpu.emulate_cycle(NO_KEYS, 0).unwrap();
    cpu.emulate_cycle(NO_KEYS, 0).unwrap();
    assert_eq!(cpu.delay_timer, 5);

    // many cycles inside the 16 ms window: no decrement at all
    for now in 0..=16u64 {
        cpu.emulate_cycle(NO_KEYS, now).unwrap();
    }
    assert_eq!(cpu.delay_timer, 5);

    // one window boundary crossed: exactly one decrement
    cpu.emulate_cycle(NO_KEYS, 17).unwrap();
    assert_eq!(cpu.delay_timer, 4);

    // the tick time was remembered: the same reading does not tick again
    cpu.emulate_cycle(NO_KEYS, 17).unwrap();
    cpu.emulate_cycle(NO_KEYS, 33).unwrap();
    assert_eq!(cpu.delay_timer, 4);

    // and the next window drains one more
    cpu.emulate_cycle(NO_KEYS, 34).unwrap();
    assert_eq!(cpu.delay_timer, 3);
}

#[test]
fn timers_clamp_at_zero() {
    let mut cpu = boot(&[0x12, 0x00]);
    assert_eq!(cpu.delay_timer, 0);
    for k in 0..5u64 {
        cpu.emulate_cycle(NO_KEYS, 100 * (k + 1)).unwrap();
    }
    assert_eq!(cpu.delay_timer, 0);
    assert_eq!(cpu.sound_timer, 0);
}

#[test]
fn beep_follows_the_sound_timer() {
    // V5 <- 2, sound timer <- V5, then jump in place
    let mut cpu = boot(&[0x65, 0x02, 0xF5, 0x18, 0x12, 0x04]);
    let st = cpu.emulate_cycle(NO_KEYS, 0).unwrap();
    assert!(!st.beep);
    let st = cpu.emulate_cycle(NO_KEYS, 0).unwrap();
    assert!(st.beep);
    // drain the sound timer over two 60 Hz windows
    let st = cpu.emulate_cycle(NO_KEYS, 20).unwrap();
    assert!(st.beep);
    assert_eq!(cpu.sound_timer, 1);
    let st = cpu.emulate_cycle(NO_KEYS, 40).unwrap();
    assert!(!st.beep);
    assert_eq!(cpu.sound_timer, 0);
}

#[test]
fn dirty_flag_resets_on_cycles_that_leave_the_framebuffer_alone() {
    // one draw, then a plain register load
    let mut cpu = boot(&[0xD0, 0x01, 0x60, 0x01]);
    let st = cpu.emulate_cycle(NO_KEYS, 0).unwrap();
    assert!(st.updated_vram);
    let st = cpu.emulate_cycle(NO_KEYS, 0).unwrap();
    assert!(!st.updated_vram);
}

#[test]
fn unknown_opcode_is_a_fatal_error() {
    let mut cpu = boot(&[0xFF, 0xFF]);
    assert_eq!(
        cpu.emulate_cycle(NO_KEYS, 0),
        Err(Chip8Error::UnknownOpcode(0xFFFF))
    );
}

#[test]
fn zero_opcode_is_a_decode_failure_not_a_nop() {
    let mut cpu = boot(&[]);
    assert_eq!(
        cpu.emulate_cycle(NO_KEYS, 0),
        Err(Chip8Error::UnknownOpcode(0x0000))
    );
}

#[test]
fn return_with_empty_stack_underflows() {
    let mut cpu = boot(&[0x00, 0xEE]);
    assert_eq!(cpu.emulate_cycle(NO_KEYS, 0), Err(Chip8Error::StackUnderflow));
    // the failed cycle left the stack state alone
    assert_eq!(cpu.sp, 0);
}

#[test]
fn seventeenth_nested_call_overflows() {
    // 2200: call the address the call itself sits at
    let mut cpu = boot(&[0x22, 0x00]);
    for _ in 0..16 {
        cpu.emulate_cycle(NO_KEYS, 0).expect("room on the stack");
    }
    assert_eq!(cpu.sp, 16);
    assert_eq!(cpu.emulate_cycle(NO_KEYS, 0), Err(Chip8Error::StackOverflow));
    assert_eq!(cpu.sp, 16);
}

#[test]
fn call_and_return_round_trip() {
    // 0x200: call 0x208; 0x208: return
    let mut cpu = boot(&[0x22, 0x08, 0x00, 0x00, 0x00, 0x00, 0x00, 0x00, 0x00, 0xEE]);
    cpu.emulate_cycle(NO_KEYS, 0).unwrap();
    assert_eq!(cpu.pc, 0x208);
    assert_eq!(cpu.sp, 1);
    assert_eq!(cpu.stack[0], 0x202);
    cpu.emulate_cycle(NO_KEYS, 0).unwrap();
    assert_eq!(cpu.pc, 0x202);
    assert_eq!(cpu.sp, 0);
}

#[test]
fn keypad_snapshot_is_replaced_each_cycle() {
    let mut cpu = boot(&[0x12, 0x00, 0x12, 0x00]);
    let mut keys = NO_KEYS;
    keys[5] = true;
    cpu.emulate_cycle(keys, 0).unwrap();
    assert!(cpu.keypad[5]);
    cpu.emulate_cycle(NO_KEYS, 0).unwrap();
    assert!(!cpu.keypad[5]);
}

#[test]
fn masked_random_byte_lands_in_the_register() {
    // V0 <- 0xFF, then V0 <- random & 0x00
    let mut cpu = boot(&[0x60, 0xFF, 0xC0, 0x00]);
    run_cycles(&mut cpu, 2);
    assert_eq!(cpu.registers[0], 0);
}

#[test]
fn random_byte_respects_the_mask() {
    // V0 <- random & 0x0F, many times over
    let mut cpu = boot(&[0xC0, 0x0F, 0x12, 0x00]);
    for _ in 0..20 {
        run_cycles(&mut cpu, 2);
        assert!(cpu.registers[0] <= 0x0F);
    }
}
