// Whole-machine behavior: drawing, the block-on-key sub-state, halting at
// the end of memory, fault isolation, program loading, the font set, and
// the register accessors.

use chip8::cpu::{Fault, CPU};

fn plant(cpu: &mut CPU, addr: usize, word: u16) {
    cpu.memory[addr] = (word >> 8) as u8;
    cpu.memory[addr + 1] = (word & 0xFF) as u8;
}

fn run_one(cpu: &mut CPU, word: u16) -> Result<bool, Fault> {
    let pc = cpu.pc as usize;
    plant(cpu, pc, word);
    cpu.fetch_decode_execute()
}

#[test]
fn draw_twice_toggles_the_pixel_and_flags_the_collision() {
    let mut cpu = CPU::default();
    cpu.i = 0x400;
    cpu.memory[0x400] = 0b1000_0000;
    cpu.v[1] = 10;
    cpu.v[2] = 7;
    assert_eq!(run_one(&mut cpu, 0xD121), Ok(false));
    assert_eq!(cpu.gfx[7 * 64 + 10], 1);
    assert_eq!(cpu.v[15], 0);
    assert_eq!(run_one(&mut cpu, 0xD121), Ok(false));
    assert_eq!(cpu.gfx[7 * 64 + 10], 0);
    assert_eq!(cpu.v[15], 1);
    assert_eq!(cpu.i, 0x400);
}

#[test]
fn draw_wraps_horizontally_and_clips_vertically() {
    let mut cpu = CPU::default();
    cpu.i = 0x400;
    cpu.memory[0x400] = 0b1000_0001;
    cpu.memory[0x401] = 0b1000_0000;
    cpu.v[1] = 60;
    cpu.v[2] = 31;
    assert_eq!(run_one(&mut cpu, 0xD122), Ok(false));
    // Leftmost bit at column 60; bit 7 wraps to column (60 + 7) % 64 = 3.
    assert_eq!(cpu.gfx[31 * 64 + 60], 1);
    assert_eq!(cpu.gfx[31 * 64 + 3], 1);
    // The second row would land below the screen: clipped, nothing set.
    let lit: usize = cpu.gfx.iter().map(|p| *p as usize).sum();
    assert_eq!(lit, 2);
    assert_eq!(cpu.v[15], 0);
}

#[test]
fn draw_takes_coordinates_modulo_the_screen() {
    let mut cpu = CPU::default();
    cpu.i = 0x400;
    cpu.memory[0x400] = 0b1000_0000;
    cpu.v[1] = 64 + 3;
    cpu.v[2] = 32 + 2;
    assert_eq!(run_one(&mut cpu, 0xD121), Ok(false));
    assert_eq!(cpu.gfx[2 * 64 + 3], 1);
}

#[test]
fn draw_past_end_of_memory_is_a_fault() {
    let mut cpu = CPU::default();
    cpu.i = 0xFFF;
    assert_eq!(run_one(&mut cpu, 0xD122), Err(Fault::MemoryBounds));
}

#[test]
fn clear_screen_turns_every_pixel_off() {
    let mut cpu = CPU::default();
    cpu.i = 0x400;
    cpu.memory[0x400] = 0xFF;
    assert_eq!(run_one(&mut cpu, 0xD005), Ok(false));
    assert!(cpu.gfx.iter().any(|p| *p == 1));
    assert_eq!(run_one(&mut cpu, 0x00E0), Ok(false));
    assert!(cpu.gfx.iter().all(|p| *p == 0));
}

#[test]
fn block_on_key_holds_pc_until_a_key_arrives() {
    let mut cpu = CPU::default();
    assert_eq!(run_one(&mut cpu, 0xF30A), Ok(false));
    assert_eq!(cpu.pc, 0x202);
    // No key pressed: repeated cycles leave the counter alone.
    for _ in 0..3 {
        assert_eq!(cpu.fetch_decode_execute(), Ok(false));
        assert_eq!(cpu.pc, 0x202);
    }
    // A key press is observed: its code lands in V3, the block lifts.
    cpu.key[9] = 1;
    assert_eq!(cpu.fetch_decode_execute(), Ok(false));
    assert_eq!(cpu.v[3], 9);
    assert_eq!(cpu.pc, 0x202);
    // The next cycle fetches normally again.
    plant(&mut cpu, 0x202, 0x6101);
    assert_eq!(cpu.fetch_decode_execute(), Ok(false));
    assert_eq!(cpu.v[1], 1);
    assert_eq!(cpu.pc, 0x204);
}

#[test]
fn block_on_key_takes_the_lowest_pressed_key() {
    let mut cpu = CPU::default();
    assert_eq!(run_one(&mut cpu, 0xF30A), Ok(false));
    cpu.key[4] = 1;
    cpu.key[11] = 1;
    assert_eq!(cpu.fetch_decode_execute(), Ok(false));
    assert_eq!(cpu.v[3], 4);
}

#[test]
fn end_of_memory_halts_after_the_final_word() {
    let mut cpu = CPU::default();
    cpu.pc = 4094;
    plant(&mut cpu, 4094, 0x6005);
    assert_eq!(cpu.fetch_decode_execute(), Ok(false));
    assert_eq!(cpu.v[0], 5);
    assert_eq!(cpu.pc, 4096);
    let before_v = cpu.v;
    let before_gfx = cpu.gfx;
    assert_eq!(cpu.fetch_decode_execute(), Ok(true));
    assert_eq!(cpu.pc, 4096);
    assert_eq!(cpu.v, before_v);
    assert!(cpu.gfx.iter().zip(before_gfx.iter()).all(|(a, b)| a == b));
}

#[test]
fn odd_pc_at_the_last_byte_is_a_fault() {
    let mut cpu = CPU::default();
    cpu.pc = 4095;
    assert_eq!(cpu.fetch_decode_execute(), Err(Fault::MemoryBounds));
    assert_eq!(cpu.pc, 4095);
}

#[test]
fn unrecognized_word_faults_and_mutates_nothing_but_the_fetch() {
    let mut cpu = CPU::default();
    cpu.v[4] = 9;
    cpu.memory[0x400] = 77;
    let before_v = cpu.v;
    let before_gfx = cpu.gfx;
    let before_stack = cpu.stack;
    assert_eq!(run_one(&mut cpu, 0xF0FF), Err(Fault::DecodeError(0xF0FF)));
    assert_eq!(cpu.v, before_v);
    assert!(cpu.gfx.iter().zip(before_gfx.iter()).all(|(a, b)| a == b));
    assert_eq!(cpu.stack, before_stack);
    assert_eq!(cpu.memory[0x400], 77);
    assert_eq!(cpu.sp, 0);
    assert_eq!(cpu.pc, 0x202);
    assert_eq!(cpu.opcode, 0xF0FF);
}

#[test]
fn load_program_copies_the_image_at_0x200() {
    let mut cpu = CPU::default();
    let image = vec![0x60, 0x2A, 0x71, 0x01];
    assert!(cpu.load_program(&image));
    assert_eq!(cpu.memory[0x200], 0x60);
    assert_eq!(cpu.memory[0x201], 0x2A);
    assert_eq!(cpu.memory[0x202], 0x71);
    assert_eq!(cpu.memory[0x203], 0x01);
    assert_eq!(cpu.memory[0x204], 0);
    assert_eq!(cpu.fetch_decode_execute(), Ok(false));
    assert_eq!(cpu.v[0], 0x2A);
}

#[test]
fn load_program_accepts_a_full_image_and_rejects_an_oversized_one() {
    let mut cpu = CPU::default();
    let full = vec![7u8; 3584];
    assert!(cpu.load_program(&full));
    assert_eq!(cpu.memory[0xFFF], 7);
    let mut cpu = CPU::default();
    let oversized = vec![7u8; 3585];
    assert!(!cpu.load_program(&oversized));
    assert_eq!(cpu.memory[0x200], 0);
}

#[test]
fn initialize_clears_the_display_and_loads_the_font() {
    let mut cpu = CPU::default();
    cpu.gfx[100] = 1;
    cpu.initialize();
    assert!(cpu.gfx.iter().all(|p| *p == 0));
    // Glyph 0 starts the set; glyph F ends it.
    assert_eq!(cpu.memory[0x50], 0xF0);
    assert_eq!(cpu.memory[0x51], 0x90);
    assert_eq!(cpu.memory[0x54], 0xF0);
    assert_eq!(cpu.memory[0x9B], 0xF0);
    assert_eq!(cpu.memory[0x9F], 0x80);
    // Memory outside the font area is untouched.
    assert_eq!(cpu.memory[0x4F], 0);
    assert_eq!(cpu.memory[0xA0], 0);
}

#[test]
fn register_accessors_read_the_register_file() {
    let mut cpu = CPU::default();
    for t in 0..16 {
        cpu.v[t] = t as u8 + 1;
    }
    assert_eq!(cpu.v0(), 1);
    assert_eq!(cpu.v1(), 2);
    assert_eq!(cpu.v2(), 3);
    assert_eq!(cpu.v3(), 4);
    assert_eq!(cpu.v4(), 5);
    assert_eq!(cpu.v5(), 6);
    assert_eq!(cpu.v6(), 7);
    assert_eq!(cpu.v7(), 8);
    assert_eq!(cpu.v8(), 9);
    assert_eq!(cpu.v9(), 10);
    assert_eq!(cpu.va(), 11);
    assert_eq!(cpu.vb(), 12);
    assert_eq!(cpu.vc(), 13);
    assert_eq!(cpu.vd(), 14);
    assert_eq!(cpu.ve(), 15);
    assert_eq!(cpu.vf(), 16);
}

#[test]
fn indexed_accessor_reads_any_register() {
    let mut cpu = CPU::default();
    for t in 0..16 {
        cpu.v[t] = 2 * t as u8;
    }
    for t in 0..16u8 {
        assert_eq!(cpu.reg(t), 2 * t);
    }
}

#[test]
fn faults_carry_a_descriptive_cause() {
    assert_eq!(Fault::DecodeError(0xF0FF).describe(), "opcode not found");
    assert_eq!(Fault::StackOverflow.describe(), "stack overflow");
    assert_eq!(Fault::StackUnderflow.describe(), "stack underflow");
    assert_eq!(Fault::MemoryBounds.describe(), "memory access out of bounds");
}

#[test]
fn read_word_assembles_big_endian() {
    let mut cpu = CPU::default();
    cpu.memory[0x300] = 0xAB;
    cpu.memory[0x301] = 0xCD;
    assert_eq!(chip8::cpu::read_word(cpu.memory, 0x300), 0xABCD);
}

#[test]
fn fetch_records_the_opcode_word() {
    let mut cpu = CPU::default();
    assert_eq!(run_one(&mut cpu, 0x6005), Ok(false));
    assert_eq!(cpu.opcode, 0x6005);
}
