use chip8::cpu::{Chip8Emulator, PROGRAM_BASE};

fn run(program: &[u8], steps: usize) -> Chip8Emulator {
    let mut emu = Chip8Emulator::new();
    assert_eq!(emu.load_program(program.to_vec(), PROGRAM_BASE), Ok(()));
    assert_eq!(emu.run_for(steps), Ok(()));
    emu
}

/// V1 = a, V2 = b, then the instruction `8 1 2 op`.
fn binary(a: u8, b: u8, op: u8) -> Chip8Emulator {
    run(&[0x61, a, 0x62, b, 0x81, 0x20 | op], 3)
}

#[test]
fn load_sets_the_register() {
    let emu = run(&[0x6C, 0xAB], 1);
    assert_eq!(emu.registers()[0xC], 0xAB);
    assert_eq!(emu.program_counter(), 0x202);
}

#[test]
fn add_immediate_wraps_and_leaves_the_flag_alone() {
    let emu = run(&[0x6F, 0x55, 0x61, 0xFF, 0x71, 0x02], 3);
    assert_eq!(emu.registers()[1], 0x01);
    assert_eq!(emu.registers()[0xF], 0x55);
    let emu = run(&[0x61, 0x10, 0x71, 0x22], 2);
    assert_eq!(emu.registers()[1], 0x32);
}

#[test]
fn move_or_and_xor() {
    assert_eq!(binary(0x0F, 0xF3, 0x0).registers()[1], 0xF3);
    assert_eq!(binary(0x0F, 0xF3, 0x1).registers()[1], 0xFF);
    assert_eq!(binary(0x0F, 0xF3, 0x2).registers()[1], 0x03);
    assert_eq!(binary(0x0F, 0xF3, 0x3).registers()[1], 0xFC);
    assert_eq!(binary(0x0F, 0xF3, 0x3).registers()[2], 0xF3);
    assert_eq!(binary(0x0F, 0xF3, 0x3).registers()[0xF], 0);
}

#[test]
fn add_without_carry() {
    let emu = binary(100, 55, 0x4);
    assert_eq!(emu.registers()[1], 155);
    assert_eq!(emu.registers()[2], 55);
    assert_eq!(emu.registers()[0xF], 0);
    let emu = binary(200, 55, 0x4);
    assert_eq!(emu.registers()[1], 255);
    assert_eq!(emu.registers()[0xF], 0);
}

#[test]
fn add_with_carry() {
    let emu = binary(200, 56, 0x4);
    assert_eq!(emu.registers()[1], 0);
    assert_eq!(emu.registers()[0xF], 1);
    let emu = binary(255, 255, 0x4);
    assert_eq!(emu.registers()[1], 254);
    assert_eq!(emu.registers()[0xF], 1);
}

#[test]
fn add_sets_carry_exactly_on_overflow_for_all_operands() {
    for a in 0..=255u8 {
        for b in 0..=255u8 {
            let emu = binary(a, b, 0x4);
            let sum = a as u16 + b as u16;
            assert_eq!(emu.registers()[1], (sum % 256) as u8);
            assert_eq!(emu.registers()[0xF], if sum > 255 { 1 } else { 0 });
        }
    }
}

#[test]
fn subtract_sets_flag_exactly_when_larger_for_all_operands() {
    for a in 0..=255u8 {
        for b in 0..=255u8 {
            let emu = binary(a, b, 0x5);
            assert_eq!(emu.registers()[1], a.wrapping_sub(b));
            assert_eq!(emu.registers()[0xF], if a > b { 1 } else { 0 });
        }
    }
}

#[test]
fn subtract_examples() {
    let emu = binary(10, 3, 0x5);
    assert_eq!(emu.registers()[1], 7);
    assert_eq!(emu.registers()[0xF], 1);
    let emu = binary(3, 10, 0x5);
    assert_eq!(emu.registers()[1], 249);
    assert_eq!(emu.registers()[0xF], 0);
    let emu = binary(10, 10, 0x5);
    assert_eq!(emu.registers()[1], 0);
    assert_eq!(emu.registers()[0xF], 0);
}

#[test]
fn subtract_from_examples() {
    let emu = binary(3, 10, 0x7);
    assert_eq!(emu.registers()[1], 7);
    assert_eq!(emu.registers()[0xF], 1);
    let emu = binary(10, 3, 0x7);
    assert_eq!(emu.registers()[1], 249);
    assert_eq!(emu.registers()[0xF], 0);
    let emu = binary(10, 10, 0x7);
    assert_eq!(emu.registers()[1], 0);
    assert_eq!(emu.registers()[0xF], 0);
}

#[test]
fn shift_right_puts_the_low_bit_of_the_old_value_in_the_flag() {
    let emu = binary(0b0000_0101, 0xEE, 0x6);
    assert_eq!(emu.registers()[1], 0b0000_0010);
    assert_eq!(emu.registers()[0xF], 1);
    assert_eq!(emu.registers()[2], 0xEE);
    let emu = binary(0b0000_0110, 0xEE, 0x6);
    assert_eq!(emu.registers()[1], 0b0000_0011);
    assert_eq!(emu.registers()[0xF], 0);
}

#[test]
fn shift_left_puts_the_high_bit_of_the_old_value_in_the_flag() {
    let emu = binary(0b1100_0001, 0xEE, 0xE);
    assert_eq!(emu.registers()[1], 0b1000_0010);
    assert_eq!(emu.registers()[0xF], 1);
    assert_eq!(emu.registers()[2], 0xEE);
    let emu = binary(0b0100_0001, 0xEE, 0xE);
    assert_eq!(emu.registers()[1], 0b1000_0010);
    assert_eq!(emu.registers()[0xF], 0);
}

#[test]
fn shifts_for_all_values() {
    for a in 0..=255u8 {
        let right = binary(a, 0, 0x6);
        assert_eq!(right.registers()[1], a / 2);
        assert_eq!(right.registers()[0xF], a % 2);
        let left = binary(a, 0, 0xE);
        assert_eq!(left.registers()[1], ((a as u16 * 2) % 256) as u8);
        assert_eq!(left.registers()[0xF], a / 128);
    }
}

#[test]
fn flag_register_as_destination_of_add_keeps_the_sum() {
    // VF = 200, V2 = 100, VF = VF + V2
    let emu = run(&[0x6F, 200, 0x62, 100, 0x8F, 0x24], 3);
    assert_eq!(emu.registers()[0xF], 44);
}

#[test]
fn flag_register_as_destination_of_subtract_keeps_the_difference() {
    let emu = run(&[0x6F, 10, 0x62, 3, 0x8F, 0x25], 3);
    assert_eq!(emu.registers()[0xF], 7);
    let emu = run(&[0x6F, 10, 0x62, 3, 0x8F, 0x27], 3);
    assert_eq!(emu.registers()[0xF], 249);
}

#[test]
fn flag_register_as_destination_of_a_shift_keeps_the_flag() {
    let emu = run(&[0x6F, 0b0000_0110, 0x8F, 0x06], 2);
    assert_eq!(emu.registers()[0xF], 0);
    let emu = run(&[0x6F, 0b0000_0111, 0x8F, 0x06], 2);
    assert_eq!(emu.registers()[0xF], 1);
    let emu = run(&[0x6F, 0b1000_0001, 0x8F, 0x0E], 2);
    assert_eq!(emu.registers()[0xF], 1);
    let emu = run(&[0x6F, 0b0100_0001, 0x8F, 0x0E], 2);
    assert_eq!(emu.registers()[0xF], 0);
}

#[test]
fn flag_register_as_source_of_add_is_read_before_it_is_written() {
    // V1 = 250, VF = 10, V1 = V1 + VF
    let emu = run(&[0x61, 250, 0x6F, 10, 0x81, 0xF4], 3);
    assert_eq!(emu.registers()[1], 4);
    assert_eq!(emu.registers()[0xF], 1);
}

#[test]
fn same_register_twice() {
    let emu = run(&[0x61, 200, 0x81, 0x14], 2);
    assert_eq!(emu.registers()[1], 144);
    assert_eq!(emu.registers()[0xF], 1);
    let emu = run(&[0x61, 200, 0x81, 0x15], 2);
    assert_eq!(emu.registers()[1], 0);
    assert_eq!(emu.registers()[0xF], 0);
}

#[test]
fn skip_if_equal_immediate() {
    let emu = run(&[0x61, 0x42, 0x31, 0x42], 2);
    assert_eq!(emu.program_counter(), 0x206);
    let emu = run(&[0x61, 0x42, 0x31, 0x43], 2);
    assert_eq!(emu.program_counter(), 0x204);
}

#[test]
fn skip_if_not_equal_immediate() {
    let emu = run(&[0x61, 0x42, 0x41, 0x42], 2);
    assert_eq!(emu.program_counter(), 0x204);
    let emu = run(&[0x61, 0x42, 0x41, 0x43], 2);
    assert_eq!(emu.program_counter(), 0x206);
}

#[test]
fn skip_if_registers_equal() {
    let emu = run(&[0x61, 7, 0x62, 7, 0x51, 0x20], 3);
    assert_eq!(emu.program_counter(), 0x208);
    let emu = run(&[0x61, 7, 0x62, 8, 0x51, 0x20], 3);
    assert_eq!(emu.program_counter(), 0x206);
}

#[test]
fn skip_if_registers_differ() {
    let emu = run(&[0x61, 7, 0x62, 7, 0x91, 0x20], 3);
    assert_eq!(emu.program_counter(), 0x206);
    let emu = run(&[0x61, 7, 0x62, 8, 0x91, 0x20], 3);
    assert_eq!(emu.program_counter(), 0x208);
}

#[test]
fn skip_passes_over_exactly_one_instruction() {
    // V1 = 1; skip if V1 == 1; V2 = 0xAA (skipped); V3 = 0xBB
    let emu = run(&[0x61, 1, 0x31, 1, 0x62, 0xAA, 0x63, 0xBB], 3);
    assert_eq!(emu.registers()[2], 0);
    assert_eq!(emu.registers()[3], 0xBB);
    assert_eq!(emu.program_counter(), 0x208);
}

#[test]
fn load_index_sets_the_index_register() {
    let emu = run(&[0xAF, 0xED], 1);
    assert_eq!(emu.index_register(), 0xFED);
    assert_eq!(emu.program_counter(), 0x202);
}
