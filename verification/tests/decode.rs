// The decoder over known opcode words: documented patterns decode to their
// symbolic operation with fields per the bit masks; reserved patterns fail
// carrying the word.

use chip8::cpu::instruction::{lookup, Op};

#[test]
fn decodes_system_ops() {
    assert_eq!(lookup(0x0000).unwrap().op, Op::Nop);
    assert_eq!(lookup(0x00E0).unwrap().op, Op::ClearScreen);
    assert_eq!(lookup(0x00EE).unwrap().op, Op::Return);
}

#[test]
fn decodes_flow_ops() {
    assert_eq!(lookup(0x1ABC).unwrap().op, Op::Jump { nnn: 0xABC });
    assert_eq!(lookup(0x2300).unwrap().op, Op::Call { nnn: 0x300 });
    assert_eq!(lookup(0xB123).unwrap().op, Op::JumpPlusV0 { nnn: 0x123 });
}

#[test]
fn decodes_conditional_ops() {
    assert_eq!(lookup(0x3A42).unwrap().op, Op::SkipEqImm { x: 0xA, nn: 0x42 });
    assert_eq!(lookup(0x4A42).unwrap().op, Op::SkipNeImm { x: 0xA, nn: 0x42 });
    assert_eq!(lookup(0x5AB0).unwrap().op, Op::SkipEqReg { x: 0xA, y: 0xB });
    assert_eq!(lookup(0x9AB0).unwrap().op, Op::SkipNeReg { x: 0xA, y: 0xB });
}

#[test]
fn families_five_and_nine_ignore_low_nibble() {
    assert_eq!(lookup(0x5AB7).unwrap().op, Op::SkipEqReg { x: 0xA, y: 0xB });
    assert_eq!(lookup(0x9AB9).unwrap().op, Op::SkipNeReg { x: 0xA, y: 0xB });
}

#[test]
fn decodes_constant_ops() {
    assert_eq!(lookup(0x6C77).unwrap().op, Op::SetImm { x: 0xC, nn: 0x77 });
    assert_eq!(lookup(0x70FF).unwrap().op, Op::AddImm { x: 0x0, nn: 0xFF });
}

#[test]
fn decodes_register_family() {
    assert_eq!(lookup(0x8120).unwrap().op, Op::CopyReg { x: 1, y: 2 });
    assert_eq!(lookup(0x8121).unwrap().op, Op::OrReg { x: 1, y: 2 });
    assert_eq!(lookup(0x8122).unwrap().op, Op::AndReg { x: 1, y: 2 });
    assert_eq!(lookup(0x8123).unwrap().op, Op::XorReg { x: 1, y: 2 });
    assert_eq!(lookup(0x8124).unwrap().op, Op::AddReg { x: 1, y: 2 });
    assert_eq!(lookup(0x8125).unwrap().op, Op::SubReg { x: 1, y: 2 });
    assert_eq!(lookup(0x8126).unwrap().op, Op::ShrReg { x: 1 });
    assert_eq!(lookup(0x8127).unwrap().op, Op::SubFrom { x: 1, y: 2 });
    assert_eq!(lookup(0x812E).unwrap().op, Op::ShlReg { x: 1 });
}

#[test]
fn register_family_reserved_patterns_fail() {
    assert_eq!(lookup(0x8128), Err(0x8128));
    assert_eq!(lookup(0x812F), Err(0x812F));
    assert_eq!(lookup(0x812A), Err(0x812A));
}

#[test]
fn decodes_memory_and_misc_ops() {
    assert_eq!(lookup(0xA123).unwrap().op, Op::SetIndex { nnn: 0x123 });
    assert_eq!(lookup(0xC2F0).unwrap().op, Op::RandMask { x: 2, nn: 0xF0 });
    assert_eq!(lookup(0xD125).unwrap().op, Op::Draw { x: 1, y: 2, n: 5 });
}

#[test]
fn decodes_key_family_for_every_register() {
    for x in 0u16..16 {
        let press = 0xE09E | (x << 8);
        let release = 0xE0A1 | (x << 8);
        assert_eq!(lookup(press).unwrap().op, Op::SkipIfKey { x: x as u8 });
        assert_eq!(lookup(release).unwrap().op, Op::SkipIfNoKey { x: x as u8 });
    }
}

#[test]
fn key_family_reserved_patterns_fail() {
    assert_eq!(lookup(0xE000), Err(0xE000));
    assert_eq!(lookup(0xE19F), Err(0xE19F));
}

#[test]
fn decodes_timer_and_memory_block_family() {
    assert_eq!(lookup(0xF307).unwrap().op, Op::ReadDelay { x: 3 });
    assert_eq!(lookup(0xF30A).unwrap().op, Op::WaitKey { x: 3 });
    assert_eq!(lookup(0xF315).unwrap().op, Op::SetDelay { x: 3 });
    assert_eq!(lookup(0xF318).unwrap().op, Op::SetSound { x: 3 });
    assert_eq!(lookup(0xF31E).unwrap().op, Op::AddIndex { x: 3 });
    assert_eq!(lookup(0xF329).unwrap().op, Op::FontIndex { x: 3 });
    assert_eq!(lookup(0xF333).unwrap().op, Op::StoreDigits { x: 3 });
    assert_eq!(lookup(0xF355).unwrap().op, Op::StoreRegs { x: 3 });
    assert_eq!(lookup(0xF365).unwrap().op, Op::LoadRegs { x: 3 });
}

#[test]
fn memory_block_store_is_keyed_on_the_documented_pattern_alone() {
    // Every register index decodes through the 0xFX55 mask; the unrelated
    // word 0xF553 stays a decode failure.
    for x in 0u16..16 {
        let w = 0xF055 | (x << 8);
        assert_eq!(lookup(w).unwrap().op, Op::StoreRegs { x: x as u8 });
    }
    assert_eq!(lookup(0xF553), Err(0xF553));
}

#[test]
fn misc_family_reserved_patterns_fail() {
    assert_eq!(lookup(0xF000), Err(0xF000));
    assert_eq!(lookup(0xF0FF), Err(0xF0FF));
    assert_eq!(lookup(0xF066), Err(0xF066));
}

#[test]
fn unassigned_system_patterns_fail() {
    assert_eq!(lookup(0x0001), Err(0x0001));
    assert_eq!(lookup(0x0100), Err(0x0100));
    assert_eq!(lookup(0x00E1), Err(0x00E1));
}

#[test]
fn unconditional_families_decode_every_word() {
    // A sample through each family without reserved patterns.
    for low in [0x000u16, 0x001, 0x123, 0xFFF] {
        for hi in [1u16, 2, 3, 4, 5, 6, 7, 9, 0xA, 0xB, 0xC, 0xD] {
            let w = (hi << 12) | low;
            assert!(lookup(w).is_ok());
        }
    }
}

#[test]
fn lookup_keeps_the_raw_word() {
    let ins = lookup(0x1ABC).unwrap();
    assert_eq!(ins.opcode, 0x1ABC);
}
