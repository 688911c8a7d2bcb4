use chip8::cpu::CPU;
use chip8::keypad::Keypad;
use chip8::model::CpuState;
use chip8::model::Fault;

const FONT: [u8; 80] = [
    0xF0, 0x90, 0x90, 0x90, 0xF0, // 0
    0x20, 0x60, 0x20, 0x20, 0x70, // 1
    0xF0, 0x10, 0xF0, 0x80, 0xF0, // 2
    0xF0, 0x10, 0xF0, 0x10, 0xF0, // 3
    0x90, 0x90, 0xF0, 0x10, 0x10, // 4
    0xF0, 0x80, 0xF0, 0x10, 0xF0, // 5
    0xF0, 0x80, 0xF0, 0x90, 0xF0, // 6
    0xF0, 0x10, 0x20, 0x40, 0x40, // 7
    0xF0, 0x90, 0xF0, 0x90, 0xF0, // 8
    0xF0, 0x90, 0xF0, 0x10, 0xF0, // 9
    0xF0, 0x90, 0xF0, 0x90, 0x90, // A
    0xE0, 0x90, 0xE0, 0x90, 0xE0, // B
    0xF0, 0x80, 0x80, 0x80, 0xF0, // C
    0xE0, 0x90, 0x90, 0x90, 0xE0, // D
    0xF0, 0x80, 0xF0, 0x80, 0xF0, // E
    0xF0, 0x80, 0xF0, 0x80, 0x80, // F
];

fn make_cpu() -> CPU {
    CPU::new(&FONT, 4096, 64 * 32, 32)
}

#[test]
fn construction_initial_state() {
    let cpu = make_cpu();
    assert_eq!(cpu.get_pc(), 0x200);
    assert_eq!(cpu.get_index_register(), 0);
    assert_eq!(cpu.state(), CpuState::Running);
    assert_eq!(cpu.last_fault(), None);
    assert_eq!(cpu.get_delay_timer(), 0);
    assert_eq!(cpu.get_sound_timer(), 0);
    // The font glyph table sits at memory 20..100.
    assert_eq!(cpu.read_memory(20), 0xF0);
    assert_eq!(cpu.read_memory(99), 0x80);
    assert_eq!(cpu.read_memory(19), 0);
    assert_eq!(cpu.read_memory(100), 0);
    for r in 0..16 {
        assert_eq!(cpu.get_value_of_register(r), 0);
    }
    for y in 0..32 {
        for x in 0..64 {
            assert!(!cpu.get_pixel(x, y));
        }
    }
}

#[test]
fn set_program_writes_at_load_origin() {
    let mut cpu = make_cpu();
    cpu.set_program(&[0xAB, 0xCD, 0xEF]);
    assert_eq!(cpu.read_memory(512), 0xAB);
    assert_eq!(cpu.read_memory(513), 0xCD);
    assert_eq!(cpu.read_memory(514), 0xEF);
    assert_eq!(cpu.read_memory(515), 0);
}

#[test]
fn add_carry_overflow_sets_flag() {
    let mut cpu = make_cpu();
    cpu.set_value_of_register(0xA, 0xFF);
    cpu.set_value_of_register(0xB, 0x01);
    cpu.add_vy_to_vx_carry(0xA, 0xB);
    assert_eq!(cpu.get_value_of_register(0xA), 0x00);
    assert_eq!(cpu.get_value_of_register(0xF), 1);
}

#[test]
fn add_carry_no_overflow_clears_flag() {
    let mut cpu = make_cpu();
    cpu.set_value_of_register(0xA, 2);
    cpu.set_value_of_register(0xB, 3);
    cpu.set_value_of_register(0xF, 1);
    cpu.add_vy_to_vx_carry(0xA, 0xB);
    assert_eq!(cpu.get_value_of_register(0xA), 5);
    assert_eq!(cpu.get_value_of_register(0xF), 0);
}

#[test]
fn sub_borrow_polarity_wraps_and_clears_flag() {
    let mut cpu = make_cpu();
    cpu.set_value_of_register(0x1, 0x01);
    cpu.set_value_of_register(0x2, 0x02);
    cpu.subtract_vy_from_vx_borrow(0x1, 0x2);
    assert_eq!(cpu.get_value_of_register(0x1), 0xFF);
    assert_eq!(cpu.get_value_of_register(0xF), 0);
}

#[test]
fn sub_borrow_no_borrow_sets_flag() {
    let mut cpu = make_cpu();
    cpu.set_value_of_register(0x1, 9);
    cpu.set_value_of_register(0x2, 4);
    cpu.subtract_vy_from_vx_borrow(0x1, 0x2);
    assert_eq!(cpu.get_value_of_register(0x1), 5);
    assert_eq!(cpu.get_value_of_register(0xF), 1);
}

#[test]
fn sub_reverse_uses_vy_minus_vx() {
    let mut cpu = make_cpu();
    cpu.set_value_of_register(0x1, 2);
    cpu.set_value_of_register(0x2, 5);
    cpu.subtract_vx_from_vy_borrow(0x1, 0x2);
    assert_eq!(cpu.get_value_of_register(0x1), 3);
    assert_eq!(cpu.get_value_of_register(0xF), 1);
}

#[test]
fn shift_right_flag_is_original_bit_zero() {
    let mut cpu = make_cpu();
    cpu.set_value_of_register(0x2, 0x03);
    cpu.shift_vy_one_right_store_in_vx(0x1, 0x2);
    assert_eq!(cpu.get_value_of_register(0x1), 0x01);
    assert_eq!(cpu.get_value_of_register(0xF), 1);
}

#[test]
fn shift_left_flag_is_original_bit_seven() {
    let mut cpu = make_cpu();
    cpu.set_value_of_register(0x2, 0x81);
    cpu.shift_vy_one_left_store_in_vx(0x1, 0x2);
    assert_eq!(cpu.get_value_of_register(0x1), 0x02);
    assert_eq!(cpu.get_value_of_register(0xF), 1);
}

#[test]
fn bitwise_ops_reset_flag() {
    let mut cpu = make_cpu();
    cpu.set_value_of_register(0x0, 0b1010);
    cpu.set_value_of_register(0x1, 0b0110);
    cpu.set_value_of_register(0xF, 1);
    cpu.set_vx_to_vx_or_vy(0x0, 0x1);
    assert_eq!(cpu.get_value_of_register(0x0), 0b1110);
    assert_eq!(cpu.get_value_of_register(0xF), 0);
    cpu.set_value_of_register(0xF, 1);
    cpu.set_vx_to_vx_and_vy(0x0, 0x1);
    assert_eq!(cpu.get_value_of_register(0x0), 0b0110);
    assert_eq!(cpu.get_value_of_register(0xF), 0);
    cpu.set_value_of_register(0xF, 1);
    cpu.set_vx_to_vx_xor_vy(0x0, 0x1);
    assert_eq!(cpu.get_value_of_register(0x0), 0b0000);
    assert_eq!(cpu.get_value_of_register(0xF), 0);
}

#[test]
fn add_immediate_wraps_without_flag() {
    let mut cpu = make_cpu();
    cpu.set_value_of_register(0x0, 250);
    cpu.set_value_of_register(0xF, 7);
    cpu.add_to_register_vx(0x0, 10);
    assert_eq!(cpu.get_value_of_register(0x0), 4);
    assert_eq!(cpu.get_value_of_register(0xF), 7);
}

#[test]
fn jump_with_offset_adds_register_zero() {
    let mut cpu = make_cpu();
    cpu.set_value_of_register(0x0, 4);
    cpu.jump_with_offset(0x300);
    assert_eq!(cpu.get_pc(), 0x304);
}

#[test]
fn subroutine_call_and_return() {
    let mut cpu = make_cpu();
    cpu.jump_to_subroutine(0x300);
    assert_eq!(cpu.get_pc(), 0x300);
    cpu.return_from_subroutine();
    assert_eq!(cpu.get_pc(), 0x200);
    assert_eq!(cpu.state(), CpuState::Running);
}

#[test]
fn stack_underflow_halts() {
    let mut cpu = make_cpu();
    cpu.return_from_subroutine();
    assert_eq!(cpu.state(), CpuState::Halted);
    assert_eq!(cpu.last_fault(), Some(Fault::StackUnderflow));
}

#[test]
fn stack_overflow_halts() {
    let mut cpu = CPU::new(&FONT, 4096, 64 * 32, 2);
    cpu.jump_to_subroutine(0x300);
    cpu.jump_to_subroutine(0x302);
    assert_eq!(cpu.state(), CpuState::Running);
    cpu.jump_to_subroutine(0x304);
    assert_eq!(cpu.state(), CpuState::Halted);
    assert_eq!(cpu.last_fault(), Some(Fault::StackOverflow));
}

#[test]
fn sprite_draw_self_inverse() {
    let mut cpu = make_cpu();
    // Glyph 0 of the font: five rows starting at memory 20.
    cpu.set_index_register(20);
    cpu.set_value_of_register(0x0, 5);
    cpu.set_value_of_register(0x1, 3);
    cpu.draw_sprite(0x0, 0x1, 5);
    assert_eq!(cpu.get_value_of_register(0xF), 0);
    assert!(cpu.redraw);
    assert!(cpu.get_pixel(5, 3));
    // Drawing the identical sprite again flips every lit pixel back.
    cpu.draw_sprite(0x0, 0x1, 5);
    assert_eq!(cpu.get_value_of_register(0xF), 1);
    for y in 0..32 {
        for x in 0..64 {
            assert!(!cpu.get_pixel(x, y));
        }
    }
}

#[test]
fn sprite_draw_clips_right_edge() {
    let mut cpu = make_cpu();
    cpu.set_program(&[0xFF]);
    cpu.set_index_register(512);
    cpu.set_value_of_register(0x0, 60);
    cpu.set_value_of_register(0x1, 0);
    cpu.draw_sprite(0x0, 0x1, 1);
    for x in 60..64 {
        assert!(cpu.get_pixel(x, 0));
    }
    // Columns at X >= 64 are dropped, not wrapped to the left edge.
    for x in 0..8 {
        assert!(!cpu.get_pixel(x, 0));
    }
    assert_eq!(cpu.get_value_of_register(0xF), 0);
}

#[test]
fn sprite_draw_clips_bottom_edge() {
    let mut cpu = make_cpu();
    cpu.set_program(&[0xFF, 0xFF, 0xFF]);
    cpu.set_index_register(512);
    cpu.set_value_of_register(0x0, 0);
    cpu.set_value_of_register(0x1, 30);
    cpu.draw_sprite(0x0, 0x1, 3);
    assert!(cpu.get_pixel(0, 30));
    assert!(cpu.get_pixel(0, 31));
    // The third row would land at Y == 32: dropped, not wrapped to the top.
    for x in 0..8 {
        assert!(!cpu.get_pixel(x, 0));
    }
}

#[test]
fn sprite_anchor_wraps_modulo_display() {
    let mut cpu = make_cpu();
    cpu.set_program(&[0x80]);
    cpu.set_index_register(512);
    cpu.set_value_of_register(0x0, 64);
    cpu.set_value_of_register(0x1, 32);
    cpu.draw_sprite(0x0, 0x1, 1);
    assert!(cpu.get_pixel(0, 0));
}

#[test]
fn block_store_then_load_round_trips() {
    let mut cpu = make_cpu();
    cpu.set_value_of_register(0x0, 10);
    cpu.set_value_of_register(0x1, 20);
    cpu.set_value_of_register(0x2, 30);
    cpu.set_value_of_register(0x3, 40);
    cpu.set_index_register(1000);
    cpu.store_register_values_in_memory(3);
    assert_eq!(cpu.get_index_register(), 1004);
    assert_eq!(cpu.read_memory(1000), 10);
    assert_eq!(cpu.read_memory(1003), 40);
    for r in 0..4 {
        cpu.set_value_of_register(r, 0);
    }
    cpu.set_index_register(1000);
    cpu.load_register_values_from_memory(3);
    assert_eq!(cpu.get_index_register(), 1004);
    assert_eq!(cpu.get_value_of_register(0x0), 10);
    assert_eq!(cpu.get_value_of_register(0x1), 20);
    assert_eq!(cpu.get_value_of_register(0x2), 30);
    assert_eq!(cpu.get_value_of_register(0x3), 40);
}

#[test]
fn block_store_past_memory_end_halts() {
    let mut cpu = make_cpu();
    cpu.set_index_register(4095);
    cpu.store_register_values_in_memory(3);
    assert_eq!(cpu.state(), CpuState::Halted);
    assert_eq!(cpu.last_fault(), Some(Fault::MemoryOutOfBounds));
}

#[test]
fn bcd_store_decomposes_digits() {
    let mut cpu = make_cpu();
    cpu.set_value_of_register(0x5, 234);
    cpu.set_index_register(1500);
    cpu.store_decimal_at_i(0x5);
    assert_eq!(cpu.read_memory(1500), 2);
    assert_eq!(cpu.read_memory(1501), 3);
    assert_eq!(cpu.read_memory(1502), 4);
}

#[test]
fn bcd_store_small_value_pads_with_zeros() {
    let mut cpu = make_cpu();
    cpu.set_value_of_register(0x5, 7);
    cpu.set_index_register(1500);
    cpu.store_decimal_at_i(0x5);
    assert_eq!(cpu.read_memory(1500), 0);
    assert_eq!(cpu.read_memory(1501), 0);
    assert_eq!(cpu.read_memory(1502), 7);
}

#[test]
fn add_to_index_register() {
    let mut cpu = make_cpu();
    cpu.set_index_register(0x0FFE);
    cpu.set_value_of_register(0x4, 5);
    cpu.add_vx_to_i(0x4);
    assert_eq!(cpu.get_index_register(), 0x1003);
}

#[test]
fn timers_set_and_read_through_opcodes() {
    let mut cpu = make_cpu();
    cpu.set_value_of_register(0x0, 3);
    cpu.set_timer_delay(0x0);
    assert_eq!(cpu.get_delay_timer(), 3);
    cpu.set_sound_delay(0x0);
    assert_eq!(cpu.get_sound_timer(), 3);
    cpu.store_delay_timer_in_vx(0x1);
    assert_eq!(cpu.get_value_of_register(0x1), 3);
}

#[test]
fn timer_decoupled_from_cycle_rate() {
    let mut cpu = make_cpu();
    // Set V5 to 5, then set the delay timer from V5.
    cpu.set_program(&[0x65, 0x05, 0xF5, 0x15]);
    let keypad = Keypad::new();
    cpu.emulate_cycle(0, &keypad);
    cpu.emulate_cycle(0, &keypad);
    assert_eq!(cpu.get_delay_timer(), 5);
    // Ten 1 ms cycles accumulate 10 ms, under the 17 ms tick period.
    for _ in 0..10 {
        cpu.emulate_cycle(1, &keypad);
    }
    assert_eq!(cpu.get_delay_timer(), 5);
    // One more 10 ms cycle crosses the period once: exactly one decrement.
    cpu.emulate_cycle(10, &keypad);
    assert_eq!(cpu.get_delay_timer(), 4);
}

#[test]
fn timers_tick_while_halted() {
    let mut cpu = make_cpu();
    cpu.set_value_of_register(0x0, 2);
    cpu.set_timer_delay(0x0);
    let keypad = Keypad::new();
    // Memory at the load origin is zeroed: the first cycle halts.
    cpu.emulate_cycle(0, &keypad);
    assert_eq!(cpu.state(), CpuState::Halted);
    cpu.emulate_cycle(17, &keypad);
    assert_eq!(cpu.get_delay_timer(), 1);
    cpu.emulate_cycle(17, &keypad);
    assert_eq!(cpu.get_delay_timer(), 0);
    // A zero timer stays at zero.
    cpu.emulate_cycle(17, &keypad);
    assert_eq!(cpu.get_delay_timer(), 0);
}

#[test]
fn unknown_instruction_halts_without_register_mutation() {
    let mut cpu = make_cpu();
    cpu.set_value_of_register(0x0, 7);
    cpu.set_program(&[0x5F, 0xFF]);
    let keypad = Keypad::new();
    cpu.emulate_cycle(0, &keypad);
    assert_eq!(cpu.state(), CpuState::Halted);
    assert_eq!(cpu.last_fault(), Some(Fault::UnknownInstruction(0x5FFF)));
    assert_eq!(cpu.get_value_of_register(0x0), 7);
    // Once halted no further instruction executes.
    let pc = cpu.get_pc();
    cpu.emulate_cycle(0, &keypad);
    assert_eq!(cpu.get_pc(), pc);
    assert_eq!(cpu.get_value_of_register(0x0), 7);
}

#[test]
fn unknown_arithmetic_sub_opcode_halts() {
    let mut cpu = make_cpu();
    cpu.set_program(&[0x80, 0x18]);
    let keypad = Keypad::new();
    cpu.emulate_cycle(0, &keypad);
    assert_eq!(cpu.state(), CpuState::Halted);
    assert_eq!(cpu.last_fault(), Some(Fault::UnknownInstruction(0x8018)));
}

#[test]
fn unknown_misc_sub_opcode_halts() {
    let mut cpu = make_cpu();
    cpu.set_program(&[0xF0, 0xFF]);
    let keypad = Keypad::new();
    cpu.emulate_cycle(0, &keypad);
    assert_eq!(cpu.state(), CpuState::Halted);
    assert_eq!(cpu.last_fault(), Some(Fault::UnknownInstruction(0xF0FF)));
}

#[test]
fn blocking_keypress_waits_for_release_edge() {
    let mut cpu = make_cpu();
    // Wait for a key and store it in V5.
    cpu.set_program(&[0xF5, 0x0A]);
    let mut keypad = Keypad::new();
    cpu.emulate_cycle(0, &keypad);
    assert_eq!(cpu.state(), CpuState::AwaitingKey);
    // Holding the key down never completes the wait.
    keypad.key_down(7);
    for _ in 0..3 {
        cpu.emulate_cycle(0, &keypad);
        assert_eq!(cpu.state(), CpuState::AwaitingKey);
        assert_eq!(cpu.get_value_of_register(0x5), 0);
    }
    // The cycle in which the key goes from pressed to released completes
    // the pending write and resumes running.
    keypad.key_up(7);
    cpu.emulate_cycle(0, &keypad);
    assert_eq!(cpu.state(), CpuState::Running);
    assert_eq!(cpu.get_value_of_register(0x5), 7);
}

#[test]
fn key_held_when_wait_begins_is_not_a_release() {
    let mut cpu = make_cpu();
    cpu.set_program(&[0xF5, 0x0A]);
    let mut keypad = Keypad::new();
    keypad.key_down(3);
    // The key is already down when the wait opcode executes; the snapshot
    // stored at the end of that cycle records it as pressed, so no edge.
    cpu.emulate_cycle(0, &keypad);
    assert_eq!(cpu.state(), CpuState::AwaitingKey);
    cpu.emulate_cycle(0, &keypad);
    assert_eq!(cpu.state(), CpuState::AwaitingKey);
    keypad.key_up(3);
    cpu.emulate_cycle(0, &keypad);
    assert_eq!(cpu.state(), CpuState::Running);
    assert_eq!(cpu.get_value_of_register(0x5), 3);
}

#[test]
fn skip_if_pressed_uses_current_snapshot() {
    let mut cpu = make_cpu();
    let mut keypad = Keypad::new();
    keypad.key_down(4);
    cpu.set_value_of_register(0x0, 4);
    let pc = cpu.get_pc();
    cpu.skip_if_pressed(0x0, &keypad);
    assert_eq!(cpu.get_pc(), pc + 2);
    cpu.skip_if_not_pressed(0x0, &keypad);
    assert_eq!(cpu.get_pc(), pc + 2);
    keypad.key_up(4);
    cpu.skip_if_not_pressed(0x0, &keypad);
    assert_eq!(cpu.get_pc(), pc + 4);
}

#[test]
fn key_test_with_invalid_index_halts() {
    let mut cpu = make_cpu();
    let keypad = Keypad::new();
    cpu.set_value_of_register(0x3, 16);
    cpu.skip_if_pressed(0x3, &keypad);
    assert_eq!(cpu.state(), CpuState::Halted);
    assert_eq!(cpu.last_fault(), Some(Fault::InvalidKeyIndex(16)));
}

#[test]
fn skip_opcodes_compare_registers_and_immediates() {
    let mut cpu = make_cpu();
    cpu.set_value_of_register(0x0, 9);
    cpu.set_value_of_register(0x1, 9);
    cpu.set_value_of_register(0x2, 4);
    let pc = cpu.get_pc();
    cpu.skip_if_equal(0x0, 9);
    assert_eq!(cpu.get_pc(), pc + 2);
    cpu.skip_if_equal(0x0, 8);
    assert_eq!(cpu.get_pc(), pc + 2);
    cpu.skip_if_not_equal(0x0, 8);
    assert_eq!(cpu.get_pc(), pc + 4);
    cpu.skip_if_x_equals_y(0x0, 0x1);
    assert_eq!(cpu.get_pc(), pc + 6);
    cpu.skip_if_x_equals_y(0x0, 0x2);
    assert_eq!(cpu.get_pc(), pc + 6);
    cpu.skip_if_x_not_equals_y(0x0, 0x2);
    assert_eq!(cpu.get_pc(), pc + 8);
}

#[test]
fn masked_random_respects_mask() {
    let mut cpu = make_cpu();
    cpu.set_value_of_register(0x0, 99);
    cpu.set_masked_random(0x0, 0x00);
    assert_eq!(cpu.get_value_of_register(0x0), 0);
    cpu.set_masked_random(0x0, 0x0F);
    assert!(cpu.get_value_of_register(0x0) <= 0x0F);
}

#[test]
fn clear_screen_darkens_everything() {
    let mut cpu = make_cpu();
    cpu.set_index_register(20);
    cpu.draw_sprite(0x0, 0x1, 5);
    assert!(cpu.get_pixel(0, 0));
    cpu.clear_screen();
    for y in 0..32 {
        for x in 0..64 {
            assert!(!cpu.get_pixel(x, y));
        }
    }
}

#[test]
fn program_drives_full_cycles() {
    // Set V1 = 0xFF, V2 = 0x01, add them with carry, then copy the flag.
    let mut cpu = make_cpu();
    cpu.set_program(&[0x61, 0xFF, 0x62, 0x01, 0x81, 0x24, 0x83, 0xF0]);
    let keypad = Keypad::new();
    for _ in 0..4 {
        cpu.emulate_cycle(0, &keypad);
    }
    assert_eq!(cpu.state(), CpuState::Running);
    assert_eq!(cpu.get_value_of_register(0x1), 0x00);
    assert_eq!(cpu.get_value_of_register(0xF), 1);
    assert_eq!(cpu.get_value_of_register(0x3), 1);
    assert_eq!(cpu.get_pc(), 0x208);
}

#[test]
fn keypad_edge_detection_finds_lowest_release() {
    let mut prev = Keypad::new();
    prev.key_down(2);
    prev.key_down(5);
    let mut cur = Keypad::new();
    cur.key_down(5);
    assert_eq!(prev.get_new_key_release(&cur), Some(2));
    let empty = Keypad::new();
    assert_eq!(prev.get_new_key_release(&empty), Some(2));
    assert_eq!(prev.get_new_key_release(&prev), None);
    assert_eq!(empty.get_new_key_release(&prev), None);
}

#[test]
fn keypad_tracks_key_state() {
    let mut keypad = Keypad::new();
    for i in 0..16 {
        assert!(!keypad.is_key_pressed(i));
    }
    keypad.key_down(0xC);
    assert!(keypad.is_key_pressed(0xC));
    assert!(!keypad.is_key_pressed(0xB));
    keypad.key_up(0xC);
    assert!(!keypad.is_key_pressed(0xC));
}
