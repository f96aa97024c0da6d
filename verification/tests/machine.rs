use chip8::cpu::{Outcome, RomError, CPU, SPRITES};

fn fresh() -> CPU {
    let mut cpu = CPU::new();
    cpu.reset();
    cpu
}

#[test]
fn reset_state() {
    let mut cpu = CPU::new();
    cpu.v[3] = 9;
    cpu.stack[2] = 77;
    cpu.sp = 3;
    cpu.i = 1234;
    cpu.memory[2000] = 5;
    cpu.screen.draw_sprite(0, 0, &[0xFF]);
    cpu.keypad.key_down(6);
    cpu.random = 0x5A;
    cpu.reset();
    assert_eq!(cpu.get_pc(), 512);
    assert_eq!(cpu.delay, 255);
    assert_eq!(cpu.sound, 255);
    assert_eq!(cpu.sp, 0);
    assert_eq!(cpu.i, 0);
    assert_eq!(cpu.v, [0u8; 16]);
    assert_eq!(cpu.stack, [0u16; 16]);
    assert_eq!(cpu.screen.pixels, [0u64; 32]);
    assert_eq!(&cpu.memory[..80], &SPRITES[..]);
    assert!(cpu.memory[80..].iter().all(|&b| b == 0));
    // what belongs to the host is kept
    assert!(cpu.keypad.is_key_down(6));
    assert_eq!(cpu.random, 0x5A);
}

#[test]
fn new_machine_is_all_zero() {
    let cpu = CPU::new();
    assert_eq!(cpu.get_pc(), 0);
    assert_eq!((cpu.i, cpu.sp, cpu.delay, cpu.sound), (0, 0, 0, 0));
    assert!(cpu.memory.iter().all(|&b| b == 0));
    assert_eq!(cpu.keypad.get_first_key_down(), None);
    assert_eq!(cpu.random, 0xFF);
}

#[test]
fn glyph_address_for_digit_a() {
    let mut cpu = fresh();
    cpu.v[4] = 0xA;
    assert_eq!(cpu.process_instruction(0xF429), Outcome::Executed);
    assert_eq!(cpu.i, 50);
    let at = cpu.i as usize;
    assert_eq!(&cpu.memory[at..at + 5], &[0xF0, 0x90, 0xF0, 0x90, 0x90]);
    assert_eq!(cpu.pc, 514);
}

#[test]
fn glyph_address_is_five_times_the_register() {
    let mut cpu = fresh();
    cpu.v[0] = 0xF;
    cpu.process_instruction(0xF029);
    assert_eq!(cpu.i, 75);
    cpu.v[0] = 255;
    cpu.process_instruction(0xF029);
    assert_eq!(cpu.i, 1275);
}

#[test]
fn add_carry_for_all_bytes() {
    for a in 0..=255u16 {
        for b in 0..=255u16 {
            let mut cpu = CPU::new();
            cpu.v[1] = a as u8;
            cpu.v[2] = b as u8;
            cpu.process_instruction(0x8124);
            assert_eq!(cpu.v[1] as u16, (a + b) % 256);
            assert_eq!(cpu.v[0xF] == 1, a + b > 255);
            assert!(cpu.v[0xF] <= 1);
            assert_eq!(cpu.v[2], b as u8);
        }
    }
}

#[test]
fn subtract_borrow_for_all_bytes() {
    for a in 0..=255i32 {
        for b in 0..=255i32 {
            let mut cpu = CPU::new();
            cpu.v[1] = a as u8;
            cpu.v[2] = b as u8;
            cpu.process_instruction(0x8125);
            assert_eq!(cpu.v[1] as i32, (a - b).rem_euclid(256));
            assert_eq!(cpu.v[0xF] == 1, a >= b);
            assert!(cpu.v[0xF] <= 1);

            let mut cpu = CPU::new();
            cpu.v[1] = a as u8;
            cpu.v[2] = b as u8;
            cpu.process_instruction(0x8127);
            assert_eq!(cpu.v[1] as i32, (b - a).rem_euclid(256));
            assert_eq!(cpu.v[0xF] == 1, b >= a);
        }
    }
}

#[test]
fn flag_wins_when_the_target_is_vf() {
    let mut cpu = CPU::new();
    cpu.v[0xF] = 200;
    cpu.v[1] = 100;
    cpu.process_instruction(0x8F14);
    assert_eq!(cpu.v[0xF], 1);

    let mut cpu = CPU::new();
    cpu.v[0xF] = 7;
    cpu.v[1] = 9;
    cpu.process_instruction(0x8F15);
    assert_eq!(cpu.v[0xF], 0);
}

#[test]
fn same_register_twice() {
    let mut cpu = CPU::new();
    cpu.v[3] = 0x90;
    cpu.process_instruction(0x8334);
    assert_eq!(cpu.v[3], 0x20);
    assert_eq!(cpu.v[0xF], 1);
    cpu.process_instruction(0x8335);
    assert_eq!(cpu.v[3], 0);
    assert_eq!(cpu.v[0xF], 1);
}

#[test]
fn shifts_read_vy() {
    let mut cpu = CPU::new();
    cpu.v[2] = 0xFF;
    cpu.v[3] = 0b1000_0010;
    cpu.process_instruction(0x8236);
    assert_eq!(cpu.v[2], 0b0100_0001);
    assert_eq!(cpu.v[3], 0b1000_0010);
    assert_eq!(cpu.v[0xF], 0);
    cpu.process_instruction(0x823E);
    assert_eq!(cpu.v[2], 0b0000_0100);
    assert_eq!(cpu.v[0xF], 1);
}

#[test]
fn shift_of_vf_sees_the_flag_just_written() {
    let mut cpu = CPU::new();
    cpu.v[0xF] = 0b0000_0111;
    cpu.process_instruction(0x82F6);
    assert_eq!(cpu.v[0xF], 1);
    assert_eq!(cpu.v[2], 0);

    let mut cpu = CPU::new();
    cpu.v[0xF] = 0b1100_0000;
    cpu.process_instruction(0x82FE);
    assert_eq!(cpu.v[0xF], 1);
    assert_eq!(cpu.v[2], 2);
}

#[test]
fn call_then_return_restores() {
    let mut cpu = fresh();
    cpu.sp = 5;
    cpu.pc = 0x300;
    assert_eq!(cpu.process_instruction(0x2123), Outcome::Executed);
    assert_eq!(cpu.pc, 0x123);
    assert_eq!(cpu.sp, 6);
    assert_eq!(cpu.stack[5], 0x302);
    assert_eq!(cpu.process_instruction(0x00EE), Outcome::Executed);
    assert_eq!(cpu.pc, 0x302);
    assert_eq!(cpu.sp, 5);
}

#[test]
fn nested_calls_fill_the_stack() {
    let mut cpu = fresh();
    for depth in 0..16u16 {
        assert!(cpu.can_process(0x2400 + depth * 2));
        cpu.process_instruction(0x2400 + depth * 2);
        assert_eq!(cpu.sp as u16, depth + 1);
    }
    assert!(!cpu.can_process(0x2400));
    for depth in (0..16u16).rev() {
        assert!(cpu.can_process(0x00EE));
        cpu.process_instruction(0x00EE);
        assert_eq!(cpu.sp as u16, depth);
    }
    assert_eq!(cpu.pc, 514);
    assert!(!cpu.can_process(0x00EE));
}

#[test]
fn skips_move_by_four_or_two() {
    // (opcode, x value, y value, key 5 down, skips)
    let cases: [(u16, u8, u8, bool, bool); 12] = [
        (0x3A05, 5, 0, false, true),
        (0x3A05, 6, 0, false, false),
        (0x4A05, 6, 0, false, true),
        (0x4A05, 5, 0, false, false),
        (0x5AB0, 5, 5, false, true),
        (0x5AB0, 5, 6, false, false),
        (0x9AB0, 5, 6, false, true),
        (0x9AB0, 5, 5, false, false),
        (0xEA9E, 5, 0, true, true),
        (0xEA9E, 5, 0, false, false),
        (0xEAA1, 5, 0, false, true),
        (0xEAA1, 5, 0, true, false),
    ];
    for (code, x, y, key, skips) in cases {
        let mut cpu = fresh();
        cpu.v[0xA] = x;
        cpu.v[0xB] = y;
        if key {
            cpu.keypad.key_down(5);
        }
        let registers = cpu.v;
        assert_eq!(cpu.process_instruction(code), Outcome::Executed);
        assert_eq!(cpu.pc, if skips { 516 } else { 514 }, "opcode {:#06x}", code);
        assert_eq!(cpu.v, registers);
    }
}

#[test]
fn jump_offset_adds_v0() {
    let mut cpu = fresh();
    cpu.v[0] = 0xFF;
    cpu.process_instruction(0xBFFF);
    assert_eq!(cpu.pc, 0xFFF + 0xFF);
}

#[test]
fn random_byte_is_masked() {
    let mut cpu = fresh();
    cpu.process_instruction(0xC3A5);
    assert_eq!(cpu.v[3], 0xA5);
    cpu.random = 0x0F;
    cpu.process_instruction(0xC3A5);
    assert_eq!(cpu.v[3], 0x05);
    cpu.random = 0;
    cpu.process_instruction(0xC3FF);
    assert_eq!(cpu.v[3], 0);
    assert_eq!(cpu.pc, 518);
}

#[test]
fn draw_uses_register_values_and_sets_collision() {
    let mut cpu = fresh();
    cpu.v[1] = 60;
    cpu.v[2] = 31;
    cpu.i = 0; // glyph 0: F0 90 90 90 F0
    assert_eq!(cpu.process_instruction(0xD125), Outcome::Executed);
    assert_eq!(cpu.v[0xF], 0);
    assert_eq!(cpu.pc, 514);
    assert_eq!(cpu.screen.pixels[31], 0xF);
    assert_eq!(cpu.screen.pixels[0], 0x9);
    assert_eq!(cpu.screen.pixels[1], 0x9);
    assert_eq!(cpu.screen.pixels[2], 0x9);
    assert_eq!(cpu.screen.pixels[3], 0xF);
    assert_eq!(cpu.screen.pixels[4], 0);
    // the same sprite again erases it and reports the collision
    cpu.process_instruction(0xD125);
    assert_eq!(cpu.v[0xF], 1);
    assert_eq!(cpu.screen.pixels, [0u64; 32]);
    // clear display
    cpu.process_instruction(0xD125);
    assert_eq!(cpu.process_instruction(0x00E0), Outcome::Executed);
    assert_eq!(cpu.screen.pixels, [0u64; 32]);
    assert_eq!(cpu.pc, 520);
}

#[test]
fn draw_wraps_coordinates_beyond_the_display() {
    let mut cpu = fresh();
    cpu.v[1] = 64 + 3;
    cpu.v[2] = 32 + 2;
    cpu.i = 5; // glyph 1: 20 60 20 20 70
    cpu.process_instruction(0xD121);
    assert_eq!(cpu.screen.pixels[2], 0x20u64 << (56 - 3));
    assert_eq!(cpu.v[0xF], 0);
}

#[test]
fn draw_of_no_rows_changes_nothing() {
    let mut cpu = fresh();
    cpu.v[0xF] = 9;
    cpu.process_instruction(0xD120);
    assert_eq!(cpu.screen.pixels, [0u64; 32]);
    assert_eq!(cpu.v[0xF], 0);
}

#[test]
fn wait_for_key_holds_the_program_counter() {
    let mut cpu = fresh();
    let registers = cpu.v;
    assert_eq!(cpu.process_instruction(0xF30A), Outcome::AwaitingKey);
    assert_eq!(cpu.pc, 512);
    assert_eq!(cpu.v, registers);
    assert_eq!(cpu.process_instruction(0xF30A), Outcome::AwaitingKey);
    assert_eq!(cpu.pc, 512);
    cpu.keypad.key_down(0xC);
    cpu.keypad.key_down(0x9);
    assert_eq!(cpu.process_instruction(0xF30A), Outcome::Executed);
    assert_eq!(cpu.v[3], 0x9);
    assert_eq!(cpu.pc, 514);
}

#[test]
fn decimal_digits_units_first() {
    let mut cpu = fresh();
    cpu.v[7] = 234;
    cpu.i = 0x400;
    cpu.process_instruction(0xF733);
    assert_eq!(&cpu.memory[0x400..0x403], &[4, 3, 2]);
    assert_eq!(cpu.i, 0x400);
    cpu.v[7] = 9;
    cpu.process_instruction(0xF733);
    assert_eq!(&cpu.memory[0x400..0x403], &[9, 0, 0]);
    cpu.v[7] = 255;
    cpu.i = 4093;
    cpu.process_instruction(0xF733);
    assert_eq!(&cpu.memory[4093..], &[5, 5, 2]);
}

#[test]
fn store_registers_below_vx() {
    let mut cpu = fresh();
    for k in 0..16 {
        cpu.v[k] = 0x10 + k as u8;
    }
    cpu.i = 0x300;
    cpu.process_instruction(0xF355);
    assert_eq!(&cpu.memory[0x300..0x304], &[0x10, 0x11, 0x12, 0]);
    assert_eq!(cpu.i, 0x303);
    cpu.process_instruction(0xF055);
    assert_eq!(cpu.i, 0x303);
    assert_eq!(cpu.memory[0x303], 0);
    cpu.i = 4096 - 15;
    cpu.process_instruction(0xFF55);
    assert_eq!(cpu.memory[4095], 0x1E);
    assert_eq!(cpu.i, 4096);
}

#[test]
fn load_registers_below_vx() {
    let mut cpu = fresh();
    cpu.i = 0; // the font: F0 90 90 90 F0 ...
    cpu.v[3] = 0xAA;
    cpu.process_instruction(0xF365);
    assert_eq!(&cpu.v[..5], &[0xF0, 0x90, 0x90, 0xAA, 0]);
    assert_eq!(cpu.i, 3);
    cpu.process_instruction(0xF065);
    assert_eq!(cpu.i, 3);
    assert_eq!(cpu.v[0], 0xF0);
}

#[test]
fn timers_count_down_to_zero_and_stay() {
    let mut cpu = CPU::new();
    cpu.delay = 2;
    cpu.sound = 1;
    cpu.decrement_timers();
    assert_eq!((cpu.delay, cpu.sound), (1, 0));
    cpu.decrement_timers();
    assert_eq!((cpu.delay, cpu.sound), (0, 0));
    cpu.decrement_timers();
    assert_eq!((cpu.delay, cpu.sound), (0, 0));
    let mut cpu = fresh();
    cpu.decrement_timers();
    assert_eq!((cpu.delay, cpu.sound), (254, 254));
    assert_eq!(cpu.pc, 512);
}

#[test]
fn invalid_opcodes_are_passed_over() {
    let mut cpu = fresh();
    let registers = cpu.v;
    assert_eq!(cpu.process_instruction(0xF0FF), Outcome::UnknownInstruction);
    assert_eq!(cpu.pc, 514);
    assert_eq!(cpu.process_instruction(0x5AB1), Outcome::UnknownInstruction);
    assert_eq!(cpu.pc, 516);
    assert_eq!(cpu.process_instruction(0x0123), Outcome::UnsupportedRoutine);
    assert_eq!(cpu.pc, 518);
    assert_eq!(cpu.v, registers);
    assert_eq!(cpu.sp, 0);
}

#[test]
fn load_rom_copies_at_512() {
    let mut cpu = fresh();
    assert_eq!(cpu.load_rom(&[0x61, 0x2A, 0x00, 0xE0]), Ok(()));
    assert_eq!(&cpu.memory[512..517], &[0x61, 0x2A, 0x00, 0xE0, 0]);
    assert_eq!(cpu.memory[511], 0);
    assert_eq!(cpu.memory[0], 0xF0);
    assert_eq!(cpu.read_instruction(), 0x612A);
    let code = cpu.read_instruction();
    cpu.process_instruction(code);
    assert_eq!(cpu.v[1], 0x2A);
    assert_eq!(cpu.read_instruction(), 0x00E0);
}

#[test]
fn load_rom_refuses_odd_length() {
    let mut cpu = fresh();
    cpu.load_rom(&[1, 2]).unwrap();
    let memory = cpu.memory;
    assert_eq!(cpu.load_rom(&[9, 9, 9]), Err(RomError::OddLength));
    assert_eq!(cpu.load_rom(&[9]), Err(RomError::OddLength));
    assert_eq!(cpu.memory, memory);
    assert_eq!(cpu.load_rom(&[]), Ok(()));
    assert_eq!(cpu.memory, memory);
}

#[test]
fn load_rom_refuses_what_does_not_fit() {
    let mut cpu = fresh();
    let memory = cpu.memory;
    assert_eq!(cpu.load_rom(&vec![7u8; 3586]), Err(RomError::TooLarge));
    assert_eq!(cpu.load_rom(&vec![7u8; 5000]), Err(RomError::TooLarge));
    assert_eq!(cpu.load_rom(&vec![7u8; 3585]), Err(RomError::OddLength));
    assert_eq!(cpu.memory, memory);
}

#[test]
fn try_process_runs_or_leaves_the_machine() {
    let mut cpu = fresh();
    assert_eq!(cpu.try_process_instruction(0x00EE), None);
    assert_eq!((cpu.pc, cpu.sp), (512, 0));
    assert_eq!(cpu.try_process_instruction(0x2300), Some(Outcome::Executed));
    assert_eq!((cpu.pc, cpu.sp), (0x300, 1));
    assert_eq!(cpu.try_process_instruction(0x00EE), Some(Outcome::Executed));
    assert_eq!((cpu.pc, cpu.sp), (514, 0));
    assert_eq!(cpu.try_process_instruction(0xF10A), Some(Outcome::AwaitingKey));
    assert_eq!(cpu.try_process_instruction(0xFFFF), Some(Outcome::UnknownInstruction));
    assert_eq!(cpu.pc, 516);
    cpu.i = 4095;
    cpu.v[3] = 77;
    let memory = cpu.memory;
    assert_eq!(cpu.try_process_instruction(0xF333), None);
    assert_eq!(cpu.memory, memory);
    assert_eq!(cpu.pc, 516);
}

#[test]
fn load_rom_takes_the_largest_image() {
    let mut cpu = fresh();
    let rom = vec![0xABu8; 3584];
    assert_eq!(cpu.load_rom(&rom), Ok(()));
    assert_eq!(cpu.memory[512], 0xAB);
    assert_eq!(cpu.memory[4095], 0xAB);
    assert_eq!(cpu.memory[511], 0);
}

#[test]
fn read_instruction_is_big_endian_and_pure() {
    let mut cpu = fresh();
    cpu.memory[512] = 0x12;
    cpu.memory[513] = 0x34;
    assert_eq!(cpu.read_instruction(), 0x1234);
    assert_eq!(cpu.read_instruction(), 0x1234);
    assert_eq!(cpu.pc, 512);
    cpu.pc = 4094;
    cpu.memory[4094] = 0xFF;
    cpu.memory[4095] = 0x01;
    assert_eq!(cpu.read_instruction(), 0xFF01);
}

#[test]
fn can_process_tells_the_faults() {
    let mut cpu = fresh();
    // a key that does not exist
    cpu.v[1] = 16;
    assert!(!cpu.can_process(0xE19E));
    assert!(!cpu.can_process(0xE1A1));
    cpu.v[1] = 15;
    assert!(cpu.can_process(0xE19E));
    // memory bounds
    cpu.i = 4094;
    assert!(!cpu.can_process(0xF133));
    assert!(cpu.can_process(0xD122));
    assert!(!cpu.can_process(0xD123));
    assert!(cpu.can_process(0xF255));
    assert!(!cpu.can_process(0xF365));
    cpu.i = 4093;
    assert!(cpu.can_process(0xF133));
    cpu.i = 5000;
    assert!(cpu.can_process(0xF055));
    assert!(!cpu.can_process(0xD120));
    // the index register stays within 16 bits
    cpu.i = 0xFFFF;
    cpu.v[1] = 1;
    assert!(!cpu.can_process(0xF11E));
    cpu.v[1] = 0;
    assert!(cpu.can_process(0xF11E));
    // the program counter stays within 16 bits
    cpu.pc = 0xFFFE;
    assert!(!cpu.can_process(0x6000));
    assert!(!cpu.can_process(0x2200));
    assert!(cpu.can_process(0x1200));
    assert!(cpu.can_process(0xF00A));
    cpu.pc = 0xFFFC;
    cpu.v[0] = 3;
    assert!(cpu.can_process(0x3004));
    assert!(!cpu.can_process(0x3003));
    cpu.pc = 0xFFFD;
    assert!(cpu.can_process(0x2200));
    cpu.process_instruction(0x2200);
    assert_eq!(cpu.stack[0], 0xFFFF);
}

#[test]
fn index_and_timer_opcodes() {
    let mut cpu = fresh();
    cpu.process_instruction(0xAFFF);
    assert_eq!(cpu.i, 0xFFF);
    cpu.v[2] = 0xFF;
    cpu.process_instruction(0xF21E);
    assert_eq!(cpu.i, 0xFFF + 0xFF);
    cpu.process_instruction(0xF207);
    assert_eq!(cpu.v[2], 255);
    cpu.v[5] = 0;
    cpu.process_instruction(0xF515);
    cpu.process_instruction(0xF518);
    assert_eq!((cpu.delay, cpu.sound), (0, 0));
    assert_eq!(cpu.pc, 512 + 10);
}

#[test]
fn logic_opcodes() {
    let mut cpu = fresh();
    cpu.v[1] = 0b1100_1010;
    cpu.v[2] = 0b1010_0110;
    cpu.v[0xF] = 5;
    cpu.process_instruction(0x8121);
    assert_eq!(cpu.v[1], 0b1110_1110);
    cpu.process_instruction(0x8122);
    assert_eq!(cpu.v[1], 0b1010_0110);
    cpu.v[1] = 0b1100_1010;
    cpu.process_instruction(0x8123);
    assert_eq!(cpu.v[1], 0b0110_1100);
    assert_eq!(cpu.v[0xF], 5);
    cpu.process_instruction(0x71FF);
    assert_eq!(cpu.v[1], 0b0110_1011);
    assert_eq!(cpu.v[0xF], 5);
}
