use chip8::cpu::{ExecutionError, JumpQuirk, Quirks, ShiftQuirk, CPU};
use chip8::instruction::Instruction;
use chip8::keyboard::{key_code_to_index, HostKey};

fn machine_with(program: &[u16]) -> CPU {
    let mut cpu = CPU::new();
    let mut bytes = Vec::new();
    for w in program {
        bytes.push((*w >> 8) as u8);
        bytes.push((*w & 0xFF) as u8);
    }
    assert!(cpu.load_rom(bytes).is_ok());
    cpu
}

#[test]
fn decode_splits_fields() {
    let a = Instruction::from_bytes(0x6A0C);
    assert_eq!(a.op_code, 6);
    assert_eq!(a.x, 0xA);
    assert_eq!(a.nn, 0x0C);
    let b = Instruction::from_bytes(0xD123);
    assert_eq!(b.op_code, 0xD);
    assert_eq!(b.x, 1);
    assert_eq!(b.y, 2);
    assert_eq!(b.n, 3);
    assert_eq!(b.nnn, 0x123);
    assert_eq!(b.nn, 0x23);
}

#[test]
fn add_immediate_wraps_without_flag() {
    let mut cpu = machine_with(&[0x7301]);
    cpu.registers[3] = 0xFF;
    cpu.registers[0xF] = 7;
    assert!(cpu.execute_instruction().is_ok());
    assert_eq!(cpu.registers[3], 0x00);
    assert_eq!(cpu.registers[0xF], 7);
}

#[test]
fn add_registers_sets_carry() {
    let mut cpu = machine_with(&[0x8124]);
    cpu.registers[1] = 0xFF;
    cpu.registers[2] = 0x01;
    assert!(cpu.execute_instruction().is_ok());
    assert_eq!(cpu.registers[1], 0x00);
    assert_eq!(cpu.registers[0xF], 1);
}

#[test]
fn add_registers_without_carry() {
    let mut cpu = machine_with(&[0x8124]);
    cpu.registers[1] = 0x10;
    cpu.registers[2] = 0x22;
    assert!(cpu.execute_instruction().is_ok());
    assert_eq!(cpu.registers[1], 0x32);
    assert_eq!(cpu.registers[0xF], 0);
}

#[test]
fn subtract_flags_borrow_as_zero() {
    let mut cpu = machine_with(&[0x8125]);
    cpu.registers[1] = 0x05;
    cpu.registers[2] = 0x0A;
    assert!(cpu.execute_instruction().is_ok());
    assert_eq!(cpu.registers[1], 0xFB);
    assert_eq!(cpu.registers[0xF], 0);
}

#[test]
fn reverse_subtract_without_borrow() {
    let mut cpu = machine_with(&[0x8127]);
    cpu.registers[1] = 0x05;
    cpu.registers[2] = 0x0A;
    assert!(cpu.execute_instruction().is_ok());
    assert_eq!(cpu.registers[1], 0x05);
    assert_eq!(cpu.registers[0xF], 1);
}

#[test]
fn shift_right_captures_low_bit() {
    let mut cpu = machine_with(&[0x8106]);
    cpu.registers[1] = 0b1000_0001;
    assert!(cpu.execute_instruction().is_ok());
    assert_eq!(cpu.registers[1], 0b0100_0000);
    assert_eq!(cpu.registers[0xF], 1);
}

#[test]
fn shift_left_flag_is_zero_or_one() {
    let mut cpu = machine_with(&[0x810E]);
    cpu.registers[1] = 0b1000_0001;
    assert!(cpu.execute_instruction().is_ok());
    assert_eq!(cpu.registers[1], 0b0000_0010);
    assert_eq!(cpu.registers[0xF], 1);
}

#[test]
fn logic_operations() {
    let mut cpu = machine_with(&[0x8121, 0x8342, 0x8563, 0x8780]);
    cpu.registers[1] = 0b1100;
    cpu.registers[2] = 0b1010;
    cpu.registers[3] = 0b1100;
    cpu.registers[4] = 0b1010;
    cpu.registers[5] = 0b1100;
    cpu.registers[6] = 0b1010;
    cpu.registers[8] = 0x42;
    for _ in 0..4 {
        assert!(cpu.execute_instruction().is_ok());
    }
    assert_eq!(cpu.registers[1], 0b1110);
    assert_eq!(cpu.registers[3], 0b1000);
    assert_eq!(cpu.registers[5], 0b0110);
    assert_eq!(cpu.registers[7], 0x42);
}

#[test]
fn clear_twice_leaves_display_off() {
    let mut cpu = machine_with(&[0x00E0, 0x00E0]);
    cpu.update_display_pixel(5, true);
    cpu.update_display_pixel(2047, true);
    assert!(cpu.execute_instruction().is_ok());
    let once = cpu.display;
    assert!(cpu.execute_instruction().is_ok());
    assert!(cpu.display.iter().all(|p| !*p));
    assert_eq!(once, cpu.display);
}

#[test]
fn draw_twice_restores_pixels() {
    // Draws the glyph of 0 at (10, 5), twice.
    let mut cpu = machine_with(&[0xA050, 0xD125, 0xD125]);
    cpu.registers[1] = 10;
    cpu.registers[2] = 5;
    cpu.update_display_pixel(cpu.get_display_pixel_index(10, 6), true);
    let before = cpu.display;
    assert!(cpu.execute_instruction().is_ok());
    assert!(cpu.execute_instruction().is_ok());
    // The lit pixel at (10, 6) lay under a set bit of the glyph's second row.
    assert_eq!(cpu.registers[0xF], 1);
    assert!(!cpu.get_display_pixel(cpu.get_display_pixel_index(10, 6)));
    assert!(cpu.get_display_pixel(cpu.get_display_pixel_index(10, 5)));
    assert!(cpu.execute_instruction().is_ok());
    assert_eq!(cpu.registers[0xF], 1);
    assert_eq!(before, cpu.display);
}

#[test]
fn draw_without_overlap_clears_flag() {
    let mut cpu = machine_with(&[0xA050, 0xD121]);
    cpu.registers[0xF] = 1;
    assert!(cpu.execute_instruction().is_ok());
    assert!(cpu.execute_instruction().is_ok());
    assert_eq!(cpu.registers[0xF], 0);
    for x in 0..4 {
        assert!(cpu.get_display_pixel(cpu.get_display_pixel_index(x, 0)));
    }
    assert!(!cpu.get_display_pixel(cpu.get_display_pixel_index(4, 0)));
}

#[test]
fn draw_wraps_start_and_clips_edges() {
    // x = 62 + 64 wraps to 62, y = 31 + 32 wraps to 31; the sprite is clipped.
    let mut cpu = machine_with(&[0xA300, 0xD122]);
    cpu.memory[0x300] = 0xFF;
    cpu.memory[0x301] = 0xFF;
    cpu.registers[1] = 126;
    cpu.registers[2] = 63;
    assert!(cpu.execute_instruction().is_ok());
    assert!(cpu.execute_instruction().is_ok());
    let lit = cpu.display.iter().filter(|p| **p).count();
    assert_eq!(lit, 2);
    assert!(cpu.get_display_pixel(cpu.get_display_pixel_index(62, 31)));
    assert!(cpu.get_display_pixel(cpu.get_display_pixel_index(63, 31)));
    assert!(!cpu.get_display_pixel(cpu.get_display_pixel_index(0, 31)));
    assert!(!cpu.get_display_pixel(cpu.get_display_pixel_index(62, 0)));
}

#[test]
fn call_return_round_trip() {
    let mut cpu = machine_with(&[0x2300]);
    cpu.memory[0x300] = 0x00;
    cpu.memory[0x301] = 0xEE;
    assert!(cpu.execute_instruction().is_ok());
    assert_eq!(cpu.pc, 0x300);
    assert_eq!(cpu.sp, 1);
    assert!(cpu.execute_instruction().is_ok());
    assert_eq!(cpu.pc, 0x202);
    assert_eq!(cpu.sp, 0);
}

#[test]
fn seventeen_nested_calls_overflow() {
    // A subroutine at 0x200 that calls itself.
    let mut cpu = machine_with(&[0x2200]);
    for depth in 1..=16 {
        assert!(cpu.execute_instruction().is_ok());
        assert_eq!(cpu.sp as usize, depth);
    }
    assert_eq!(cpu.execute_instruction(), Err(ExecutionError::StackOverflow));
    assert_eq!(cpu.sp, 16);
    assert_eq!(cpu.pc, 0x200);
}

#[test]
fn return_on_empty_stack_underflows() {
    let mut cpu = machine_with(&[0x00EE]);
    assert_eq!(cpu.execute_instruction(), Err(ExecutionError::StackUnderflow));
    assert_eq!(cpu.pc, 0x200);
}

#[test]
fn timers_stop_at_zero() {
    let mut cpu = CPU::new();
    let mut fx = machine_with(&[0x6303, 0xF315, 0xF318]);
    for _ in 0..3 {
        assert!(fx.execute_instruction().is_ok());
    }
    assert_eq!(fx.delay_timer, 3);
    assert_eq!(fx.sound_timer, 3);
    let mut seen = Vec::new();
    for _ in 0..5 {
        fx.decrement_timers();
        seen.push(fx.delay_timer);
        assert_eq!(fx.sound_timer, fx.delay_timer);
    }
    assert_eq!(seen, vec![2, 1, 0, 0, 0]);
    cpu.decrement_timers();
    assert_eq!(cpu.delay_timer, 0);
}

#[test]
fn wait_for_key_polls_then_advances() {
    let mut cpu = machine_with(&[0xF40A]);
    for _ in 0..3 {
        assert!(cpu.execute_instruction().is_ok());
        assert_eq!(cpu.pc, 0x200);
    }
    cpu.key_press(0xB);
    cpu.key_press(0x7);
    assert!(cpu.execute_instruction().is_ok());
    assert_eq!(cpu.pc, 0x202);
    assert_eq!(cpu.registers[4], 0x7);
}

#[test]
fn skip_if_key_pressed_or_not() {
    let mut cpu = machine_with(&[0xE19E, 0x0000, 0xE1A1]);
    cpu.registers[1] = 0x5;
    cpu.key_press(0x5);
    assert!(cpu.execute_instruction().is_ok());
    assert_eq!(cpu.pc, 0x204);
    cpu.key_release(0x5);
    assert!(cpu.execute_instruction().is_ok());
    assert_eq!(cpu.pc, 0x208);
}

#[test]
fn skips_on_comparisons() {
    let mut cpu = machine_with(&[0x3142, 0x0000, 0x4142, 0x5120, 0x0000, 0x9120]);
    cpu.registers[1] = 0x42;
    cpu.registers[2] = 0x42;
    assert!(cpu.execute_instruction().is_ok());
    assert_eq!(cpu.pc, 0x204);
    assert!(cpu.execute_instruction().is_ok());
    assert_eq!(cpu.pc, 0x206);
    assert!(cpu.execute_instruction().is_ok());
    assert_eq!(cpu.pc, 0x20A);
    assert!(cpu.execute_instruction().is_ok());
    assert_eq!(cpu.pc, 0x20C);
}

#[test]
fn jumps_set_program_counter() {
    let mut cpu = machine_with(&[0x1345]);
    assert!(cpu.execute_instruction().is_ok());
    assert_eq!(cpu.pc, 0x345);
    let mut cpu = machine_with(&[0xB300]);
    cpu.registers[0] = 0x10;
    assert!(cpu.execute_instruction().is_ok());
    assert_eq!(cpu.pc, 0x310);
}

#[test]
fn index_register_operations() {
    let mut cpu = machine_with(&[0xA123, 0xF21E, 0xF229]);
    cpu.registers[2] = 0x0A;
    assert!(cpu.execute_instruction().is_ok());
    assert_eq!(cpu.index, 0x123);
    assert!(cpu.execute_instruction().is_ok());
    assert_eq!(cpu.index, 0x12D);
    assert!(cpu.execute_instruction().is_ok());
    assert_eq!(cpu.index, 0x50 + 5 * 0x0A);
}

#[test]
fn delay_timer_read_back() {
    let mut cpu = machine_with(&[0xF507]);
    cpu.delay_timer = 9;
    assert!(cpu.execute_instruction().is_ok());
    assert_eq!(cpu.registers[5], 9);
}

#[test]
fn bcd_stores_decimal_digits() {
    let mut cpu = machine_with(&[0xA400, 0xF333]);
    cpu.registers[3] = 254;
    assert!(cpu.execute_instruction().is_ok());
    assert!(cpu.execute_instruction().is_ok());
    assert_eq!(cpu.memory[0x400], 2);
    assert_eq!(cpu.memory[0x401], 5);
    assert_eq!(cpu.memory[0x402], 4);
}

#[test]
fn bcd_past_memory_end_fails() {
    let mut cpu = machine_with(&[0xAFFE, 0xF333]);
    assert!(cpu.execute_instruction().is_ok());
    assert_eq!(
        cpu.execute_instruction(),
        Err(ExecutionError::MemoryOutOfBounds { address: 0x1000 })
    );
    assert_eq!(cpu.pc, 0x202);
}

#[test]
fn store_and_load_registers() {
    let mut cpu = machine_with(&[0xA500, 0xF255, 0xA600, 0xF165]);
    cpu.registers[0] = 1;
    cpu.registers[1] = 2;
    cpu.registers[2] = 3;
    cpu.registers[3] = 4;
    cpu.memory[0x600] = 0x77;
    cpu.memory[0x601] = 0x88;
    for _ in 0..4 {
        assert!(cpu.execute_instruction().is_ok());
    }
    assert_eq!(&cpu.memory[0x500..0x504], &[1, 2, 3, 0]);
    assert_eq!(cpu.registers[0], 0x77);
    assert_eq!(cpu.registers[1], 0x88);
    assert_eq!(cpu.registers[2], 3);
}

#[test]
fn unknown_instruction_is_reported() {
    let mut cpu = machine_with(&[0x8128]);
    assert_eq!(
        cpu.execute_instruction(),
        Err(ExecutionError::UnknownInstruction { word: 0x8128 })
    );
    let mut cpu = machine_with(&[0xF1FF]);
    assert_eq!(
        cpu.execute_instruction(),
        Err(ExecutionError::UnknownInstruction { word: 0xF1FF })
    );
}

#[test]
fn fetch_past_memory_end_fails() {
    let mut cpu = CPU::new();
    cpu.pc = 0xFFF;
    assert_eq!(
        cpu.execute_instruction(),
        Err(ExecutionError::MemoryOutOfBounds { address: 0x1000 })
    );
}

#[test]
fn rom_too_large_is_refused() {
    let mut cpu = CPU::new();
    assert_eq!(cpu.load_rom(vec![1; 4096 - 0x200 + 1]), Err(ExecutionError::RomTooLarge));
    assert_eq!(cpu.memory[0x200], 0);
    assert!(cpu.load_rom(vec![1; 4096 - 0x200]).is_ok());
    assert_eq!(cpu.memory[0x200], 1);
    assert_eq!(cpu.memory[4095], 1);
}

#[test]
fn new_machine_holds_font() {
    let cpu = CPU::new();
    assert_eq!(cpu.pc, 0x200);
    assert_eq!(&cpu.memory[0x50..0x55], &[0xF0, 0x90, 0x90, 0x90, 0xF0]);
    assert_eq!(&cpu.memory[0x9B..0xA0], &[0xF0, 0x80, 0xF0, 0x80, 0x80]);
    assert_eq!(cpu.memory[0xA0], 0);
}

#[test]
fn pixel_accessors() {
    let mut cpu = CPU::new();
    assert_eq!(cpu.get_display_pixel_index(3, 2), 131);
    cpu.update_display_pixel(131, true);
    assert!(cpu.get_display_pixel(131));
    cpu.set_carry_flag(1);
    assert_eq!(cpu.registers[0xF], 1);
}

#[test]
fn random_is_masked() {
    let mut cpu = machine_with(&[0xC100]);
    cpu.registers[1] = 0xAA;
    assert!(cpu.execute_instruction().is_ok());
    assert_eq!(cpu.registers[1], 0);
    let mut seen = std::collections::HashSet::new();
    for _ in 0..200 {
        let mut cpu = machine_with(&[0xC10F]);
        assert!(cpu.execute_instruction().is_ok());
        assert!(cpu.registers[1] <= 0x0F);
        seen.insert(cpu.registers[1]);
    }
    assert!(seen.len() > 1);
}

#[test]
fn key_mapping() {
    assert_eq!(key_code_to_index(Some(HostKey::Key1)), Some(0x1));
    assert_eq!(key_code_to_index(Some(HostKey::Key4)), Some(0xC));
    assert_eq!(key_code_to_index(Some(HostKey::X)), Some(0x0));
    assert_eq!(key_code_to_index(Some(HostKey::V)), Some(0xF));
    assert_eq!(key_code_to_index(None), None);
}

fn quirky_machine_with(program: &[u16]) -> CPU {
    let mut cpu = CPU::with_quirks(Quirks { shift: ShiftQuirk::Legacy, jump: JumpQuirk::VxOffset });
    let mut bytes = Vec::new();
    for w in program {
        bytes.push((*w >> 8) as u8);
        bytes.push((*w & 0xFF) as u8);
    }
    assert!(cpu.load_rom(bytes).is_ok());
    cpu
}

#[test]
fn legacy_shift_reads_vy() {
    let mut cpu = quirky_machine_with(&[0x8126, 0x834E]);
    cpu.registers[1] = 0xF0;
    cpu.registers[2] = 0b0000_0011;
    cpu.registers[3] = 0x01;
    cpu.registers[4] = 0b1000_0000;
    assert!(cpu.execute_instruction().is_ok());
    assert_eq!(cpu.registers[1], 0b0000_0001);
    assert_eq!(cpu.registers[0xF], 1);
    assert!(cpu.execute_instruction().is_ok());
    assert_eq!(cpu.registers[3], 0);
    assert_eq!(cpu.registers[0xF], 1);
}

#[test]
fn jump_with_vx_offset() {
    let mut cpu = quirky_machine_with(&[0xB320]);
    cpu.registers[0] = 0x01;
    cpu.registers[3] = 0x10;
    assert!(cpu.execute_instruction().is_ok());
    assert_eq!(cpu.pc, 0x330);
}
