use rusty8::cpu::CPU;
use rusty8::font::FONTSET;
use rusty8::model::{Fault, FaultKind};

fn with_program(words: &[u16]) -> CPU {
    let mut bytes: Vec<u8> = Vec::new();
    for w in words {
        bytes.push((w >> 8) as u8);
        bytes.push((w & 0xFF) as u8);
    }
    let mut cpu = CPU::init();
    cpu.load_rom(&bytes).unwrap();
    cpu
}

fn run(cpu: &mut CPU, word: u16, random: u8) -> Result<(), Fault> {
    cpu.opcode = word;
    cpu.execute(random)
}

#[test]
fn cpu_build_font_test() {
    let cpu = CPU::init();

    assert_eq!(cpu.memory[0..80], FONTSET[..]);
}

#[test]
fn init_state() {
    let cpu = CPU::init();
    assert_eq!(cpu.pc, 0x200);
    assert_eq!(cpu.sp, 0);
    assert!(cpu.memory[80..].iter().all(|b| *b == 0));
    assert!(cpu.gfx.iter().all(|p| *p == 0));
    assert!(cpu.keyboard.iter().all(|k| !*k));
    assert_eq!(cpu.delay_timer, 0);
    assert_eq!(cpu.sound_timer, 0);
    assert!(!cpu.draw_flag);
}

#[test]
fn rom_load_copies_bytes() {
    let mut cpu = CPU::init();
    let rom: Vec<u8> = vec![0x6A, 0x02, 0x6B, 0x0C, 0xA2, 0xEA];
    assert_eq!(cpu.load_rom(&rom), Ok(6));
    assert_eq!(cpu.memory[0x200..0x206], rom[..]);
    assert_eq!(cpu.memory[0x206], 0);
}

#[test]
fn rom_load_largest_fits() {
    let mut cpu = CPU::init();
    let rom = vec![0xAB_u8; 3584];
    assert_eq!(cpu.load_rom(&rom), Ok(3584));
    assert_eq!(cpu.memory[0x200..], rom[..]);
}

#[test]
fn rom_load_too_large_is_rejected() {
    let mut cpu = CPU::init();
    let before = cpu.memory;
    let rom = vec![0xAB_u8; 3585];
    assert_eq!(
        cpu.load_rom(&rom),
        Err(Fault { kind: FaultKind::RomTooLarge, pc: 0x200, opcode: 0 })
    );
    assert_eq!(cpu.memory[..], before[..]);
}

#[test]
fn load_add_immediate_scenario() {
    let mut cpu = with_program(&[0x6A05, 0x7A03]);
    cpu.registers[0xF] = 0x42;
    cpu.cycle().unwrap();
    cpu.cycle().unwrap();
    assert_eq!(cpu.registers[0xA], 8);
    assert_eq!(cpu.pc, 0x204);
    assert_eq!(cpu.registers[0xF], 0x42);
}

#[test]
fn add_immediate_wraps_without_flag() {
    let mut cpu = CPU::init();
    cpu.registers[3] = 0xFF;
    run(&mut cpu, 0x7302, 0).unwrap();
    assert_eq!(cpu.registers[3], 1);
    assert_eq!(cpu.registers[0xF], 0);
}

#[test]
fn return_on_empty_stack_is_underflow() {
    let mut cpu = with_program(&[0x00EE]);
    let r = cpu.cycle();
    assert_eq!(r, Err(Fault { kind: FaultKind::StackUnderflow, pc: 0x200, opcode: 0x00EE }));
    assert_eq!(cpu.pc, 0x200);
    assert_eq!(cpu.sp, 0);
}

#[test]
fn call_and_return() {
    let mut cpu = CPU::init();
    run(&mut cpu, 0x2300, 0).unwrap();
    assert_eq!(cpu.pc, 0x300);
    assert_eq!(cpu.sp, 1);
    assert_eq!(cpu.stack[0], 0x200);
    run(&mut cpu, 0x00EE, 0).unwrap();
    assert_eq!(cpu.pc, 0x202);
    assert_eq!(cpu.sp, 0);
}

#[test]
fn seventeenth_call_overflows() {
    let mut cpu = CPU::init();
    for _ in 0..16 {
        run(&mut cpu, 0x2400, 0).unwrap();
    }
    assert_eq!(cpu.sp, 16);
    let r = run(&mut cpu, 0x2400, 0);
    assert_eq!(r, Err(Fault { kind: FaultKind::StackOverflow, pc: 0x400, opcode: 0x2400 }));
    assert_eq!(cpu.sp, 16);
}

#[test]
fn jump_and_jump_with_offset() {
    let mut cpu = CPU::init();
    run(&mut cpu, 0x1ABC, 0).unwrap();
    assert_eq!(cpu.pc, 0xABC);
    cpu.registers[0] = 0x10;
    run(&mut cpu, 0xB300, 0).unwrap();
    assert_eq!(cpu.pc, 0x312);
}

#[test]
fn conditional_skips() {
    let mut cpu = CPU::init();
    cpu.registers[1] = 7;
    cpu.registers[2] = 7;
    run(&mut cpu, 0x3107, 0).unwrap();
    assert_eq!(cpu.pc, 0x204);
    run(&mut cpu, 0x3108, 0).unwrap();
    assert_eq!(cpu.pc, 0x206);
    run(&mut cpu, 0x4108, 0).unwrap();
    assert_eq!(cpu.pc, 0x20A);
    run(&mut cpu, 0x5120, 0).unwrap();
    assert_eq!(cpu.pc, 0x20E);
    run(&mut cpu, 0x9120, 0).unwrap();
    assert_eq!(cpu.pc, 0x210);
}

#[test]
fn skip_with_nonzero_low_nibble_is_unknown() {
    let mut cpu = CPU::init();
    let r = run(&mut cpu, 0x5121, 0);
    assert_eq!(r, Err(Fault { kind: FaultKind::UnknownInstruction, pc: 0x200, opcode: 0x5121 }));
    assert_eq!(cpu.pc, 0x200);
}

#[test]
fn bitwise_operations() {
    let mut cpu = CPU::init();
    cpu.registers[1] = 0b1100;
    cpu.registers[2] = 0b1010;
    run(&mut cpu, 0x8121, 0).unwrap();
    assert_eq!(cpu.registers[1], 0b1110);
    cpu.registers[1] = 0b1100;
    run(&mut cpu, 0x8122, 0).unwrap();
    assert_eq!(cpu.registers[1], 0b1000);
    cpu.registers[1] = 0b1100;
    run(&mut cpu, 0x8123, 0).unwrap();
    assert_eq!(cpu.registers[1], 0b0110);
    run(&mut cpu, 0x8120, 0).unwrap();
    assert_eq!(cpu.registers[1], 0b1010);
    assert_eq!(cpu.pc, 0x208);
}

#[test]
fn add_registers_sets_carry() {
    let mut cpu = CPU::init();
    cpu.registers[1] = 200;
    cpu.registers[2] = 100;
    run(&mut cpu, 0x8124, 0).unwrap();
    assert_eq!(cpu.registers[1], 44);
    assert_eq!(cpu.registers[0xF], 1);
    cpu.registers[1] = 155;
    run(&mut cpu, 0x8124, 0).unwrap();
    assert_eq!(cpu.registers[1], 255);
    assert_eq!(cpu.registers[0xF], 0);
}

#[test]
fn subtract_registers_sets_no_borrow() {
    let mut cpu = CPU::init();
    cpu.registers[1] = 5;
    cpu.registers[2] = 5;
    run(&mut cpu, 0x8125, 0).unwrap();
    assert_eq!(cpu.registers[1], 0);
    assert_eq!(cpu.registers[0xF], 1);
    cpu.registers[1] = 3;
    run(&mut cpu, 0x8125, 0).unwrap();
    assert_eq!(cpu.registers[1], 254);
    assert_eq!(cpu.registers[0xF], 0);
}

#[test]
fn reverse_subtract_sets_no_borrow() {
    let mut cpu = CPU::init();
    cpu.registers[1] = 3;
    cpu.registers[2] = 10;
    run(&mut cpu, 0x8127, 0).unwrap();
    assert_eq!(cpu.registers[1], 7);
    assert_eq!(cpu.registers[0xF], 1);
    cpu.registers[1] = 11;
    run(&mut cpu, 0x8127, 0).unwrap();
    assert_eq!(cpu.registers[1], 255);
    assert_eq!(cpu.registers[0xF], 0);
}

#[test]
fn flag_register_as_operand_is_overwritten_by_flag() {
    let mut cpu = CPU::init();
    cpu.registers[0xF] = 200;
    cpu.registers[2] = 100;
    run(&mut cpu, 0x8F24, 0).unwrap();
    assert_eq!(cpu.registers[0xF], 1);
}

#[test]
fn shifts_capture_the_bit_shifted_out() {
    let mut cpu = CPU::init();
    cpu.registers[4] = 0b1000_0011;
    run(&mut cpu, 0x8406, 0).unwrap();
    assert_eq!(cpu.registers[4], 0b0100_0001);
    assert_eq!(cpu.registers[0xF], 1);
    cpu.registers[4] = 0b1000_0010;
    run(&mut cpu, 0x840E, 0).unwrap();
    assert_eq!(cpu.registers[4], 0b0000_0100);
    assert_eq!(cpu.registers[0xF], 1);
    cpu.registers[4] = 0b0100_0010;
    run(&mut cpu, 0x840E, 0).unwrap();
    assert_eq!(cpu.registers[4], 0b1000_0100);
    assert_eq!(cpu.registers[0xF], 0);
}

#[test]
fn unknown_register_operation() {
    let mut cpu = CPU::init();
    let r = run(&mut cpu, 0x8128, 0);
    assert_eq!(r, Err(Fault { kind: FaultKind::UnknownInstruction, pc: 0x200, opcode: 0x8128 }));
}

#[test]
fn unknown_system_instruction() {
    let mut cpu = with_program(&[0x0123]);
    let r = cpu.cycle();
    assert_eq!(r, Err(Fault { kind: FaultKind::UnknownInstruction, pc: 0x200, opcode: 0x0123 }));
}

#[test]
fn random_is_masked() {
    let mut cpu = CPU::init();
    run(&mut cpu, 0xC30F, 0xAB).unwrap();
    assert_eq!(cpu.registers[3], 0x0B);
    assert_eq!(cpu.pc, 0x202);
    cpu.opcode = 0xC3F0;
    cpu.decode().unwrap();
    assert_eq!(cpu.registers[3] & 0x0F, 0);
    cpu.opcode = 0xC300;
    cpu.decode().unwrap();
    assert_eq!(cpu.registers[3], 0);
}

#[test]
fn clear_screen() {
    let mut cpu = CPU::init();
    cpu.gfx[5] = 1;
    cpu.gfx[2047] = 1;
    run(&mut cpu, 0x00E0, 0).unwrap();
    assert!(cpu.gfx.iter().all(|p| *p == 0));
    assert!(cpu.draw_flag);
    assert_eq!(cpu.pc, 0x202);
}

#[test]
fn draw_glyph_and_collision() {
    let mut cpu = CPU::init();
    cpu.registers[0] = 0;
    cpu.registers[1] = 2;
    cpu.registers[2] = 3;
    run(&mut cpu, 0xF029, 0).unwrap();
    assert_eq!(cpu.i, 0);
    run(&mut cpu, 0xD125, 0).unwrap();
    assert_eq!(cpu.registers[0xF], 0);
    assert!(cpu.draw_flag);
    // first row of the glyph 0 is 0xF0: four lit pixels from column 2
    let row = 3 * 64;
    assert_eq!(cpu.gfx[row + 1..row + 7], [0, 1, 1, 1, 1, 0]);
    // second row is 0x90
    let row = 4 * 64;
    assert_eq!(cpu.gfx[row + 1..row + 7], [0, 1, 0, 0, 1, 0]);
    assert_eq!(cpu.gfx.iter().filter(|p| **p == 1).count(), 14);
}

#[test]
fn draw_twice_restores_display() {
    let mut cpu = CPU::init();
    cpu.gfx[3 * 64 + 2] = 1;
    cpu.gfx[10] = 1;
    let before = cpu.gfx;
    cpu.registers[1] = 2;
    cpu.registers[2] = 3;
    cpu.i = 0;
    run(&mut cpu, 0xD125, 0).unwrap();
    assert_eq!(cpu.registers[0xF], 1);
    assert_eq!(cpu.gfx[3 * 64 + 2], 0);
    run(&mut cpu, 0xD125, 0).unwrap();
    assert_eq!(cpu.registers[0xF], 1);
    assert_eq!(cpu.gfx[..], before[..]);
}

#[test]
fn draw_wraps_at_right_and_bottom_edges() {
    let mut cpu = CPU::init();
    cpu.memory[0x300] = 0xFF;
    cpu.memory[0x301] = 0x81;
    cpu.i = 0x300;
    cpu.registers[1] = 60;
    cpu.registers[2] = 31;
    run(&mut cpu, 0xD122, 0).unwrap();
    // row 31: columns 60..63 and then 0..3
    let row = 31 * 64;
    assert_eq!(cpu.gfx[row + 60..row + 64], [1, 1, 1, 1]);
    assert_eq!(cpu.gfx[row..row + 4], [1, 1, 1, 1]);
    // second row wraps to row 0: columns 60 and 3
    assert_eq!(cpu.gfx[60], 1);
    assert_eq!(cpu.gfx[3], 1);
    assert_eq!(cpu.gfx[61], 0);
    assert_eq!(cpu.gfx.iter().filter(|p| **p == 1).count(), 10);
}

#[test]
fn draw_origin_wraps() {
    let mut cpu = CPU::init();
    cpu.memory[0x300] = 0x80;
    cpu.i = 0x300;
    cpu.registers[1] = 64 + 5;
    cpu.registers[2] = 32 + 1;
    run(&mut cpu, 0xD121, 0).unwrap();
    assert_eq!(cpu.gfx[64 + 5], 1);
}

#[test]
fn draw_past_end_of_memory_is_out_of_bounds() {
    let mut cpu = CPU::init();
    cpu.i = 0xFFE;
    let r = run(&mut cpu, 0xD123, 0);
    assert_eq!(r, Err(Fault { kind: FaultKind::OutOfBounds, pc: 0x200, opcode: 0xD123 }));
    assert!(!cpu.draw_flag);
    cpu.i = 0xFFD;
    run(&mut cpu, 0xD123, 0).unwrap();
}

#[test]
fn fetch_past_end_of_memory_is_out_of_bounds() {
    let mut cpu = CPU::init();
    cpu.pc = 0xFFF;
    let r = cpu.cycle();
    assert_eq!(r, Err(Fault { kind: FaultKind::OutOfBounds, pc: 0xFFF, opcode: 0 }));
    assert_eq!(cpu.pc, 0xFFF);
}

#[test]
fn key_skips() {
    let mut cpu = CPU::init();
    cpu.registers[5] = 0xA;
    cpu.keyboard[0xA] = true;
    run(&mut cpu, 0xE59E, 0).unwrap();
    assert_eq!(cpu.pc, 0x204);
    run(&mut cpu, 0xE5A1, 0).unwrap();
    assert_eq!(cpu.pc, 0x206);
    cpu.keyboard[0xA] = false;
    run(&mut cpu, 0xE5A1, 0).unwrap();
    assert_eq!(cpu.pc, 0x20A);
    cpu.registers[5] = 16;
    let r = run(&mut cpu, 0xE59E, 0);
    assert_eq!(r, Err(Fault { kind: FaultKind::OutOfBounds, pc: 0x20A, opcode: 0xE59E }));
    let r = run(&mut cpu, 0xE5FF, 0);
    assert_eq!(r, Err(Fault { kind: FaultKind::UnknownInstruction, pc: 0x20A, opcode: 0xE5FF }));
}

#[test]
fn wait_for_key() {
    let mut cpu = CPU::init();
    run(&mut cpu, 0xF30A, 0).unwrap();
    assert_eq!(cpu.pc, 0x200);
    cpu.keyboard[0xC] = true;
    cpu.keyboard[0x7] = true;
    run(&mut cpu, 0xF30A, 0).unwrap();
    assert_eq!(cpu.pc, 0x202);
    assert_eq!(cpu.registers[3], 0x7);
}

#[test]
fn timers() {
    let mut cpu = CPU::init();
    cpu.registers[2] = 3;
    run(&mut cpu, 0xF215, 0).unwrap();
    run(&mut cpu, 0xF218, 0).unwrap();
    assert_eq!(cpu.delay_timer, 3);
    assert_eq!(cpu.sound_timer, 3);
    cpu.sound_timer = 1;
    cpu.tick_timers();
    assert_eq!(cpu.delay_timer, 2);
    assert_eq!(cpu.sound_timer, 0);
    cpu.tick_timers();
    assert_eq!(cpu.sound_timer, 0);
    run(&mut cpu, 0xF407, 0).unwrap();
    assert_eq!(cpu.registers[4], 1);
}

#[test]
fn address_register_operations() {
    let mut cpu = CPU::init();
    run(&mut cpu, 0xA123, 0).unwrap();
    assert_eq!(cpu.i, 0x123);
    cpu.registers[1] = 0x10;
    run(&mut cpu, 0xF11E, 0).unwrap();
    assert_eq!(cpu.i, 0x133);
    cpu.i = 0xFFFF;
    run(&mut cpu, 0xF11E, 0).unwrap();
    assert_eq!(cpu.i, 0x0F);
    cpu.registers[1] = 0xF;
    run(&mut cpu, 0xF129, 0).unwrap();
    assert_eq!(cpu.i, 75);
}

#[test]
fn bcd_round_trip() {
    for v in [0_u8, 7, 42, 100, 255] {
        let mut cpu = CPU::init();
        cpu.i = 0x300;
        cpu.registers[6] = v;
        run(&mut cpu, 0xF633, 0).unwrap();
        assert_eq!(cpu.memory[0x300..0x303], [v / 100, (v / 10) % 10, v % 10]);
        run(&mut cpu, 0xF265, 0).unwrap();
        assert_eq!(cpu.registers[0..3], [v / 100, (v / 10) % 10, v % 10]);
        assert_eq!(cpu.i, 0x303);
    }
}

#[test]
fn bcd_at_end_of_memory_is_out_of_bounds() {
    let mut cpu = CPU::init();
    cpu.i = 0xFFE;
    let r = run(&mut cpu, 0xF033, 0);
    assert_eq!(r, Err(Fault { kind: FaultKind::OutOfBounds, pc: 0x200, opcode: 0xF033 }));
}

#[test]
fn register_dump_and_load() {
    let mut cpu = CPU::init();
    for k in 0..16 {
        cpu.registers[k] = k as u8 + 1;
    }
    cpu.i = 0x400;
    run(&mut cpu, 0xF355, 0).unwrap();
    assert_eq!(cpu.memory[0x400..0x405], [1, 2, 3, 4, 0]);
    assert_eq!(cpu.i, 0x404);
    cpu.i = 0x401;
    run(&mut cpu, 0xF165, 0).unwrap();
    assert_eq!(cpu.registers[0..3], [2, 3, 3]);
    assert_eq!(cpu.i, 0x403);
    cpu.i = 0xFFF;
    let r = run(&mut cpu, 0xF155, 0);
    assert_eq!(r.unwrap_err().kind, FaultKind::OutOfBounds);
    run(&mut cpu, 0xF055, 0).unwrap();
    assert_eq!(cpu.memory[0xFFF], 2);
}

#[test]
fn unknown_misc_instruction() {
    let mut cpu = CPU::init();
    let r = run(&mut cpu, 0xF0FF, 0);
    assert_eq!(r, Err(Fault { kind: FaultKind::UnknownInstruction, pc: 0x200, opcode: 0xF0FF }));
}
