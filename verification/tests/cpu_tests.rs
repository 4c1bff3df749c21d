use chip8::cpu::CPU;
use chip8::cpu::ProgramCounter;

fn fresh_cpu() -> CPU {
    CPU::new(vec![0u8; 4096])
}

fn cpu_with_program(program: &[u8]) -> CPU {
    let mut memory = vec![0u8; 4096];
    for (i, byte) in program.iter().enumerate() {
        memory[0x200 + i] = *byte;
    }
    CPU::new(memory)
}

#[test]
fn opcode_test_clear_screen() {
    let mut cpu = CPU::new(vec![0 as u8; 4096]);
    cpu.video_memory = vec![128; 64 * 32];
    cpu.opcode_00e0();

    for y in 0..32 {
        for x in 0..64 {
            assert_eq!(cpu.video_memory[y * 64 + x], 0);
        }
    }
    assert!(cpu.video_memory_changed);
}

#[test]
fn new_cpu_starts_at_0x200() {
    let cpu = fresh_cpu();
    assert_eq!(cpu.program_counter, 0x200);
    assert_eq!(cpu.register_i, 0x200);
    assert_eq!(cpu.stack_pointer, 0);
    for x in 0..16 {
        assert_eq!(cpu.registers[x], 0);
    }
}

#[test]
fn skip_if_picks_skip_or_next() {
    assert_eq!(ProgramCounter::skip_if(true), ProgramCounter::Skip);
    assert_eq!(ProgramCounter::skip_if(false), ProgramCounter::Next);
}

#[test]
fn add_256_in_two_halves_leaves_register_and_flag() {
    let mut cpu = fresh_cpu();
    cpu.opcode_6xkk(3, 0x42);
    cpu.opcode_6xkk(15, 0x01);
    cpu.opcode_7xkk(3, 128);
    assert_eq!(cpu.registers[3], 0xC2);
    cpu.opcode_7xkk(3, 128);
    assert_eq!(cpu.registers[3], 0x42);
    // 7xkk wraps without ever touching the carry flag
    assert_eq!(cpu.registers[15], 0x01);
}

#[test]
fn add_immediate_wraps_without_flag() {
    let mut cpu = fresh_cpu();
    cpu.opcode_6xkk(0, 200);
    cpu.opcode_7xkk(0, 100);
    assert_eq!(cpu.registers[0], 44);
    assert_eq!(cpu.registers[15], 0);
}

#[test]
fn add_registers_reports_carry() {
    let mut cpu = fresh_cpu();
    cpu.opcode_6xkk(0, 200);
    cpu.opcode_6xkk(1, 100);
    cpu.opcode_8xy4(0, 1);
    assert_eq!(cpu.registers[0], 44);
    assert_eq!(cpu.registers[15], 1);
    cpu.opcode_6xkk(2, 5);
    cpu.opcode_6xkk(3, 7);
    cpu.opcode_8xy4(2, 3);
    assert_eq!(cpu.registers[2], 12);
    assert_eq!(cpu.registers[15], 0);
}

#[test]
fn subtract_reports_not_borrow() {
    let mut cpu = fresh_cpu();
    cpu.opcode_6xkk(0, 10);
    cpu.opcode_6xkk(1, 3);
    cpu.opcode_8xy5(0, 1);
    assert_eq!(cpu.registers[0], 7);
    assert_eq!(cpu.registers[15], 1);
    cpu.opcode_6xkk(2, 3);
    cpu.opcode_6xkk(3, 10);
    cpu.opcode_8xy5(2, 3);
    assert_eq!(cpu.registers[2], 249);
    assert_eq!(cpu.registers[15], 0);
}

#[test]
fn reverse_subtract_reports_not_borrow() {
    let mut cpu = fresh_cpu();
    cpu.opcode_6xkk(0, 3);
    cpu.opcode_6xkk(1, 10);
    cpu.opcode_8xy7(0, 1);
    assert_eq!(cpu.registers[0], 7);
    assert_eq!(cpu.registers[15], 1);
}

#[test]
fn shifts_capture_dropped_bits() {
    let mut cpu = fresh_cpu();
    cpu.opcode_6xkk(0, 7);
    cpu.opcode_8xy6(0, 1);
    assert_eq!(cpu.registers[0], 3);
    assert_eq!(cpu.registers[15], 1);
    cpu.opcode_6xkk(2, 0x81);
    cpu.opcode_8xye(2, 1);
    assert_eq!(cpu.registers[2], 0x02);
    assert_eq!(cpu.registers[15], 1);
}

#[test]
fn bitwise_ops_combine_registers() {
    let mut cpu = fresh_cpu();
    cpu.opcode_6xkk(0, 0b1100);
    cpu.opcode_6xkk(1, 0b1010);
    cpu.opcode_8xy1(0, 1);
    assert_eq!(cpu.registers[0], 0b1110);
    cpu.opcode_6xkk(0, 0b1100);
    cpu.opcode_8xy2(0, 1);
    assert_eq!(cpu.registers[0], 0b1000);
    cpu.opcode_6xkk(0, 0b1100);
    cpu.opcode_8xy3(0, 1);
    assert_eq!(cpu.registers[0], 0b0110);
    cpu.opcode_8xy0(0, 1);
    assert_eq!(cpu.registers[0], 0b1010);
}

#[test]
fn draw_twice_restores_framebuffer_and_collides() {
    let mut cpu = fresh_cpu();
    cpu.memory[0x300] = 0b1010_0000;
    cpu.memory[0x301] = 0b0100_0000;
    cpu.register_i = 0x300;
    cpu.opcode_6xkk(0, 2);
    cpu.opcode_6xkk(1, 5);
    cpu.opcode_dxyn(0, 1, 2);
    assert_eq!(cpu.registers[15], 0);
    assert!(cpu.video_memory_changed);
    assert_eq!(cpu.video_memory[5 * 64 + 2], 1);
    assert_eq!(cpu.video_memory[5 * 64 + 3], 0);
    assert_eq!(cpu.video_memory[5 * 64 + 4], 1);
    assert_eq!(cpu.video_memory[6 * 64 + 3], 1);
    // the second identical draw clears exactly what the first set
    cpu.opcode_dxyn(0, 1, 2);
    assert_eq!(cpu.registers[15], 1);
    for p in 0..64 * 32 {
        assert_eq!(cpu.video_memory[p], 0);
    }
}

#[test]
fn clear_then_draw_leaves_sprite_alone() {
    let mut cpu = fresh_cpu();
    cpu.video_memory = vec![1; 64 * 32];
    cpu.memory[0x300] = 0xFF;
    cpu.register_i = 0x300;
    cpu.opcode_00e0();
    cpu.opcode_6xkk(0, 0);
    cpu.opcode_6xkk(1, 0);
    cpu.opcode_dxyn(0, 1, 1);
    assert_eq!(cpu.registers[15], 0);
    for p in 0..64 * 32 {
        let expected = if p < 8 { 1 } else { 0 };
        assert_eq!(cpu.video_memory[p], expected);
    }
}

#[test]
fn draw_wraps_on_the_torus() {
    let mut cpu = fresh_cpu();
    cpu.memory[0x300] = 0xFF;
    cpu.memory[0x301] = 0xFF;
    cpu.register_i = 0x300;
    cpu.opcode_6xkk(0, 60);
    cpu.opcode_6xkk(1, 31);
    cpu.opcode_dxyn(0, 1, 2);
    // row 0 lands on the bottom edge, wrapping off the right edge
    assert_eq!(cpu.video_memory[31 * 64 + 60], 1);
    assert_eq!(cpu.video_memory[31 * 64 + 63], 1);
    assert_eq!(cpu.video_memory[31 * 64 + 0], 1);
    assert_eq!(cpu.video_memory[31 * 64 + 3], 1);
    // row 1 wraps to the top edge
    assert_eq!(cpu.video_memory[0 * 64 + 60], 1);
    assert_eq!(cpu.video_memory[0 * 64 + 3], 1);
    assert_eq!(cpu.video_memory[1 * 64 + 60], 0);
}

#[test]
fn call_then_return_round_trip() {
    let mut cpu = cpu_with_program(&[0x22, 0x08]);
    cpu.memory[0x208] = 0x00;
    cpu.memory[0x209] = 0xEE;
    cpu.opcode_execute();
    assert_eq!(cpu.program_counter, 0x208);
    assert_eq!(cpu.stack_pointer, 1);
    cpu.opcode_execute();
    assert_eq!(cpu.program_counter, 0x202);
    assert_eq!(cpu.stack_pointer, 0);
}

#[test]
fn jumps_set_the_program_counter() {
    let mut cpu = cpu_with_program(&[0x13, 0x24]);
    cpu.opcode_execute();
    assert_eq!(cpu.program_counter, 0x324);

    let mut cpu = cpu_with_program(&[0xB3, 0x00]);
    cpu.opcode_6xkk(0, 4);
    cpu.opcode_execute();
    assert_eq!(cpu.program_counter, 0x304);
}

#[test]
fn conditional_skips_advance_by_four() {
    let mut cpu = cpu_with_program(&[0x35, 0x42]);
    cpu.opcode_6xkk(5, 0x42);
    cpu.opcode_execute();
    assert_eq!(cpu.program_counter, 0x204);

    let mut cpu = cpu_with_program(&[0x35, 0x42]);
    cpu.opcode_execute();
    assert_eq!(cpu.program_counter, 0x202);

    let mut cpu = cpu_with_program(&[0x91, 0x20]);
    cpu.opcode_6xkk(1, 1);
    cpu.opcode_execute();
    assert_eq!(cpu.program_counter, 0x204);
}

#[test]
fn keypad_skips_follow_the_snapshot() {
    let mut cpu = cpu_with_program(&[0xE1, 0x9E]);
    cpu.opcode_6xkk(1, 3);
    let mut keys = vec![false; 16];
    keys[3] = true;
    cpu.cpu_cycle(keys);
    assert_eq!(cpu.program_counter, 0x204);

    let mut cpu = cpu_with_program(&[0xE1, 0xA1]);
    cpu.opcode_6xkk(1, 3);
    cpu.cpu_cycle(vec![false; 16]);
    assert_eq!(cpu.program_counter, 0x204);
}

#[test]
fn keypad_wait_blocks_until_lowest_key() {
    let mut cpu = cpu_with_program(&[0xF3, 0x0A]);
    cpu.cpu_cycle(vec![false; 16]);
    assert!(cpu.keypad_waiting);
    assert_eq!(cpu.program_counter, 0x202);
    for _ in 0..3 {
        cpu.cpu_cycle(vec![false; 16]);
        assert!(cpu.keypad_waiting);
        assert_eq!(cpu.program_counter, 0x202);
        assert_eq!(cpu.registers[3], 0);
    }
    let mut keys = vec![false; 16];
    keys[7] = true;
    keys[9] = true;
    cpu.cpu_cycle(keys);
    assert!(!cpu.keypad_waiting);
    assert_eq!(cpu.registers[3], 7);
    assert_eq!(cpu.program_counter, 0x202);
}

#[test]
fn waiting_cycles_do_not_tick_timers() {
    let mut cpu = cpu_with_program(&[0xF3, 0x0A]);
    cpu.delay_timer = 5;
    cpu.cpu_cycle(vec![false; 16]);
    assert_eq!(cpu.delay_timer, 4);
    // once the latch is armed the whole machine pauses, timers included
    cpu.cpu_cycle(vec![false; 16]);
    cpu.cpu_cycle(vec![false; 16]);
    assert_eq!(cpu.delay_timer, 4);
}

#[test]
fn timers_stop_at_zero() {
    let mut cpu = fresh_cpu();
    cpu.delay_timer = 2;
    cpu.sound_timer = 1;
    let out = cpu.cpu_cycle(vec![false; 16]);
    assert_eq!(cpu.delay_timer, 1);
    assert_eq!(cpu.sound_timer, 0);
    assert!(!out.beep);
    for _ in 0..3 {
        cpu.cpu_cycle(vec![false; 16]);
        assert_eq!(cpu.delay_timer, 0);
        assert_eq!(cpu.sound_timer, 0);
    }
}

#[test]
fn beep_follows_the_sound_timer() {
    let mut cpu = fresh_cpu();
    cpu.opcode_6xkk(0, 3);
    cpu.opcode_fx18(0);
    assert_eq!(cpu.sound_timer, 3);
    let out = cpu.cpu_cycle(vec![false; 16]);
    assert!(out.beep);
    assert!(!out.video_memory_changed);
}

#[test]
fn delay_timer_loads_and_reads_back() {
    let mut cpu = fresh_cpu();
    cpu.opcode_6xkk(0, 9);
    cpu.opcode_fx15(0);
    assert_eq!(cpu.delay_timer, 9);
    cpu.opcode_fx07(4);
    assert_eq!(cpu.registers[4], 9);
}

#[test]
fn font_address_for_digit_five() {
    let mut cpu = fresh_cpu();
    cpu.opcode_6xkk(0, 0x05);
    cpu.opcode_fx29(0);
    assert_eq!(cpu.register_i, 25);
}

#[test]
fn address_register_add_reports_range_flag() {
    let mut cpu = fresh_cpu();
    cpu.register_i = 0xEFF;
    cpu.opcode_6xkk(0, 1);
    cpu.opcode_fx1e(0);
    assert_eq!(cpu.register_i, 0xF00);
    assert_eq!(cpu.registers[15], 0);
    cpu.opcode_fx1e(0);
    assert_eq!(cpu.register_i, 0xF01);
    assert_eq!(cpu.registers[15], 1);
}

#[test]
fn bcd_writes_three_digits() {
    let mut cpu = fresh_cpu();
    cpu.opcode_6xkk(0, 254);
    cpu.register_i = 0x400;
    cpu.opcode_fx33(0);
    assert_eq!(cpu.memory[0x400], 2);
    assert_eq!(cpu.memory[0x401], 5);
    assert_eq!(cpu.memory[0x402], 4);
}

#[test]
fn register_dump_copies_prefix_byte_for_byte() {
    let mut cpu = fresh_cpu();
    cpu.opcode_6xkk(0, 0x11);
    cpu.opcode_6xkk(1, 0x22);
    cpu.opcode_6xkk(2, 0x33);
    cpu.opcode_6xkk(3, 0x42);
    cpu.register_i = 0x400;
    cpu.opcode_fx55(3);
    assert_eq!(cpu.memory[0x400], 0x11);
    assert_eq!(cpu.memory[0x401], 0x22);
    assert_eq!(cpu.memory[0x402], 0x33);
    assert_eq!(cpu.memory[0x403], 0x42);
    assert_eq!(cpu.memory[0x404], 0);
}

#[test]
fn register_load_reads_prefix_byte_for_byte() {
    let mut cpu = fresh_cpu();
    cpu.memory[0x400] = 0x0A;
    cpu.memory[0x401] = 0x0B;
    cpu.memory[0x402] = 0x0C;
    cpu.opcode_6xkk(3, 0x99);
    cpu.register_i = 0x400;
    cpu.opcode_fx65(2);
    assert_eq!(cpu.registers[0], 0x0A);
    assert_eq!(cpu.registers[1], 0x0B);
    assert_eq!(cpu.registers[2], 0x0C);
    // registers past Vx stay untouched
    assert_eq!(cpu.registers[3], 0x99);
}

#[test]
fn random_byte_is_masked_by_kk() {
    let mut cpu = fresh_cpu();
    cpu.opcode_cxkk(4, 0x0F, 0xAB);
    assert_eq!(cpu.registers[4], 0x0B);
    // through the dispatcher, a zero mask pins the result whatever the
    // random source produced
    let mut cpu = cpu_with_program(&[0xC4, 0x00]);
    cpu.opcode_6xkk(4, 0x55);
    cpu.cpu_cycle(vec![false; 16]);
    assert_eq!(cpu.registers[4], 0x00);
}

#[test]
fn unknown_opcode_is_a_benign_no_op() {
    let mut cpu = cpu_with_program(&[0x51, 0x11]);
    cpu.opcode_6xkk(1, 7);
    cpu.cpu_cycle(vec![false; 16]);
    assert_eq!(cpu.program_counter, 0x202);
    assert_eq!(cpu.registers[1], 7);
    assert_eq!(cpu.stack_pointer, 0);
}

#[test]
fn load_address_register() {
    let mut cpu = cpu_with_program(&[0xA1, 0x23]);
    cpu.cpu_cycle(vec![false; 16]);
    assert_eq!(cpu.register_i, 0x123);
}

#[test]
fn cycle_output_mirrors_the_framebuffer() {
    let mut cpu = cpu_with_program(&[0xD0, 0x11]);
    cpu.memory[0x300] = 0x80;
    cpu.register_i = 0x300;
    let out = cpu.cpu_cycle(vec![false; 16]);
    assert!(out.video_memory_changed);
    assert_eq!(out.video_memory.len(), 64 * 32);
    assert_eq!(out.video_memory[0], 1);
    assert_eq!(out.video_memory[1], 0);
    assert_eq!(out.video_memory, cpu.video_memory);
}

#[test]
fn can_step_spots_stack_faults() {
    let cpu = fresh_cpu();
    assert!(cpu.can_step());

    // a return with an empty stack is a fatal fault
    let cpu = cpu_with_program(&[0x00, 0xEE]);
    assert!(!cpu.can_step());

    // a call with a full stack is a fatal fault
    let mut cpu = cpu_with_program(&[0x22, 0x00]);
    cpu.stack_pointer = 16;
    assert!(!cpu.can_step());
    cpu.stack_pointer = 15;
    assert!(cpu.can_step());

    // a draw that runs past the end of memory is a fatal fault
    let mut cpu = cpu_with_program(&[0xD0, 0x15]);
    cpu.register_i = 4092;
    assert!(!cpu.can_step());
}
