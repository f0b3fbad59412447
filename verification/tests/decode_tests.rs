//! Decoding of instruction words: one case per instruction kind, and
//! the malformed sub-cases of each family.

use chip8::cpu::CPU;
use chip8::decode::DecodeError;
use chip8::decode::Instr;

#[test]
fn decode_sys_cls_ret() {
    assert_eq!(CPU::decode_instr(0x0300), Ok(Instr::Sys { nnn: 0x300 }));
    assert_eq!(CPU::decode_instr(0x00E0), Ok(Instr::Cls));
    assert_eq!(CPU::decode_instr(0x00EE), Ok(Instr::Ret));
}

#[test]
fn decode_control_flow() {
    assert_eq!(CPU::decode_instr(0x1ABC), Ok(Instr::Jp { nnn: 0xABC }));
    assert_eq!(CPU::decode_instr(0x2345), Ok(Instr::Call { nnn: 0x345 }));
    assert_eq!(CPU::decode_instr(0xB123), Ok(Instr::JpV0 { nnn: 0x123 }));
}

#[test]
fn decode_skips() {
    assert_eq!(CPU::decode_instr(0x3A55), Ok(Instr::SeVal { x: 0xA, kk: 0x55 }));
    assert_eq!(CPU::decode_instr(0x4B66), Ok(Instr::SneVal { x: 0xB, kk: 0x66 }));
    assert_eq!(CPU::decode_instr(0x5120), Ok(Instr::SeReg { x: 1, y: 2 }));
    assert_eq!(CPU::decode_instr(0x9340), Ok(Instr::SneReg { x: 3, y: 4 }));
    // The 9xyn family ignores the low nibble.
    assert_eq!(CPU::decode_instr(0x9347), Ok(Instr::SneReg { x: 3, y: 4 }));
}

#[test]
fn decode_immediates() {
    assert_eq!(CPU::decode_instr(0x6A02), Ok(Instr::LdVal { x: 0xA, kk: 0x02 }));
    assert_eq!(CPU::decode_instr(0x7CFF), Ok(Instr::AddVal { x: 0xC, kk: 0xFF }));
    assert_eq!(CPU::decode_instr(0xC0F0), Ok(Instr::Rnd { x: 0, kk: 0xF0 }));
}

#[test]
fn decode_alu_family() {
    assert_eq!(CPU::decode_instr(0x8120), Ok(Instr::LdReg { x: 1, y: 2 }));
    assert_eq!(CPU::decode_instr(0x8121), Ok(Instr::Or { x: 1, y: 2 }));
    assert_eq!(CPU::decode_instr(0x8122), Ok(Instr::And { x: 1, y: 2 }));
    assert_eq!(CPU::decode_instr(0x8123), Ok(Instr::Xor { x: 1, y: 2 }));
    assert_eq!(CPU::decode_instr(0x8124), Ok(Instr::Add { x: 1, y: 2 }));
    assert_eq!(CPU::decode_instr(0x8125), Ok(Instr::Sub { x: 1, y: 2 }));
    assert_eq!(CPU::decode_instr(0x8126), Ok(Instr::Shr { x: 1, y: 2 }));
    assert_eq!(CPU::decode_instr(0x8127), Ok(Instr::Subn { x: 1, y: 2 }));
    assert_eq!(CPU::decode_instr(0x812E), Ok(Instr::Shl { x: 1, y: 2 }));
}

#[test]
fn decode_memory_and_timer_family() {
    assert_eq!(CPU::decode_instr(0xA678), Ok(Instr::LdI { nnn: 0x678 }));
    assert_eq!(CPU::decode_instr(0xD125), Ok(Instr::Drw { x: 1, y: 2, n: 5 }));
    assert_eq!(CPU::decode_instr(0xE29E), Ok(Instr::Skp { x: 2 }));
    assert_eq!(CPU::decode_instr(0xE3A1), Ok(Instr::Sknp { x: 3 }));
    assert_eq!(CPU::decode_instr(0xF407), Ok(Instr::LdDt { x: 4 }));
    assert_eq!(CPU::decode_instr(0xF50A), Ok(Instr::LdKey { x: 5 }));
    assert_eq!(CPU::decode_instr(0xF615), Ok(Instr::StDt { x: 6 }));
    assert_eq!(CPU::decode_instr(0xF718), Ok(Instr::StSt { x: 7 }));
    assert_eq!(CPU::decode_instr(0xF81E), Ok(Instr::AddI { x: 8 }));
    assert_eq!(CPU::decode_instr(0xF929), Ok(Instr::LdFont { x: 9 }));
    assert_eq!(CPU::decode_instr(0xFA33), Ok(Instr::StBcd { x: 0xA }));
    assert_eq!(CPU::decode_instr(0xFB55), Ok(Instr::StRegs { x: 0xB }));
    assert_eq!(CPU::decode_instr(0xFC65), Ok(Instr::LdRegs { x: 0xC }));
}

#[test]
fn decode_unsupported_words_carry_the_word() {
    for w in [0x0000u16, 0x00E5, 0x00FF, 0x5121, 0x8128, 0x812F, 0xE2FF, 0xE000, 0xF000, 0xF0FF] {
        assert_eq!(
            CPU::decode_instr(w),
            Err(DecodeError::UnsupportedOpcode { word: w }),
            "word {w:#06X} should be unsupported"
        );
    }
}

#[test]
fn decode_is_a_pure_function_of_the_word() {
    for w in [0x00E0u16, 0x1ABC, 0x8124, 0xF50A, 0x5121] {
        assert_eq!(CPU::decode_instr(w), CPU::decode_instr(w));
    }
}
