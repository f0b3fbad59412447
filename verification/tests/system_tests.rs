//! The stepped state machine: fetch/decode/execute, call and return,
//! key-wait suspension, halting, error reporting and drawing.

use chip8::ops::StepError;
use chip8::system::System;

/// Write a big-endian instruction word at `addr`.
fn poke_word(sys: &mut System, addr: usize, w: u16) {
    sys.cpu.store_byte_mem(addr, (w >> 8) as u8);
    sys.cpu.store_byte_mem(addr + 1, (w & 0xFF) as u8);
}

#[test]
fn load_immediate_scenario() {
    // Word 0x6A02 at 0x200: load immediate 2 into register A; one step
    // leaves VA = 2 and the counter at 0x202.
    let mut sys = System::new();
    poke_word(&mut sys, 0x200, 0x6A02);
    assert_eq!(sys.step(), Ok(()));
    assert_eq!(sys.cpu.vregs[0xA], 2);
    assert_eq!(sys.cpu.pc, 0x202);
}

#[test]
fn call_then_ret_restores_stack_depth_and_returns_past_the_call() {
    let mut sys = System::new();
    poke_word(&mut sys, 0x200, 0x2300); // CALL 0x300
    poke_word(&mut sys, 0x300, 0x00EE); // RET
    let depth_before = sys.cpu.stack.len();
    assert_eq!(sys.step(), Ok(()));
    assert_eq!(sys.cpu.pc, 0x300);
    assert_eq!(sys.cpu.stack.len(), depth_before + 1);
    assert_eq!(sys.step(), Ok(()));
    assert_eq!(sys.cpu.stack.len(), depth_before);
    assert_eq!(sys.cpu.pc, 0x202, "execution resumes just after the call");
}

#[test]
fn key_wait_blocks_then_takes_the_pressed_key() {
    let mut sys = System::new();
    poke_word(&mut sys, 0x200, 0xF50A); // LD V5, K
    assert_eq!(sys.step(), Ok(()));
    assert_eq!(sys.cpu.pc, 0x200, "a key-wait does not advance the counter");
    // Repeated ticks with no key pressed change nothing.
    for _ in 0..5 {
        assert_eq!(sys.step(), Ok(()));
        assert_eq!(sys.cpu.pc, 0x200);
        assert_eq!(sys.cpu.vregs[5], 0);
    }
    sys.cpu.set_key(7, true);
    assert_eq!(sys.step(), Ok(()));
    assert_eq!(sys.cpu.vregs[5], 7);
    assert_eq!(sys.cpu.pc, 0x202, "completion advances by exactly 2");
}

#[test]
fn key_wait_takes_the_lowest_pressed_key() {
    let mut sys = System::new();
    poke_word(&mut sys, 0x200, 0xF00A);
    assert_eq!(sys.step(), Ok(()));
    sys.cpu.set_key(9, true);
    sys.cpu.set_key(3, true);
    assert_eq!(sys.step(), Ok(()));
    assert_eq!(sys.cpu.vregs[0], 3);
}

#[test]
fn jump_to_self_halts() {
    let mut sys = System::new();
    poke_word(&mut sys, 0x200, 0x1200); // JP 0x200
    assert!(!sys.cpu.is_halted());
    assert_eq!(sys.step(), Ok(()));
    assert!(sys.cpu.is_halted());
    assert_eq!(sys.cpu.pc, 0x200);
}

#[test]
fn jump_sets_the_counter() {
    let mut sys = System::new();
    poke_word(&mut sys, 0x200, 0x1400);
    assert_eq!(sys.step(), Ok(()));
    assert_eq!(sys.cpu.pc, 0x400);
    assert!(!sys.cpu.is_halted());
}

#[test]
fn skips_take_four_else_two() {
    let mut sys = System::new();
    poke_word(&mut sys, 0x200, 0x3505); // SE V5, 5 (false: V5 == 0)
    assert_eq!(sys.step(), Ok(()));
    assert_eq!(sys.cpu.pc, 0x202);

    let mut sys = System::new();
    sys.cpu.set_reg(5, 5);
    poke_word(&mut sys, 0x200, 0x3505); // SE V5, 5 (true)
    assert_eq!(sys.step(), Ok(()));
    assert_eq!(sys.cpu.pc, 0x204);
}

#[test]
fn skp_and_sknp_test_the_key_named_by_the_register_value() {
    let mut sys = System::new();
    sys.cpu.set_reg(2, 0xB);
    sys.cpu.set_key(0xB, true);
    poke_word(&mut sys, 0x200, 0xE29E); // SKP V2
    assert_eq!(sys.step(), Ok(()));
    assert_eq!(sys.cpu.pc, 0x204);

    let mut sys = System::new();
    sys.cpu.set_reg(2, 0xB);
    poke_word(&mut sys, 0x200, 0xE2A1); // SKNP V2, key B not pressed
    assert_eq!(sys.step(), Ok(()));
    assert_eq!(sys.cpu.pc, 0x204);
}

#[test]
fn unsupported_opcode_is_reported_and_leaves_the_machine_unchanged() {
    let mut sys = System::new();
    poke_word(&mut sys, 0x200, 0x5121); // malformed 5xy1
    assert_eq!(sys.step(), Err(StepError::UnsupportedOpcode { word: 0x5121 }));
    assert_eq!(sys.cpu.pc, 0x200, "the counter is left unchanged");
}

#[test]
fn empty_stack_return_reports_and_halts() {
    let mut sys = System::new();
    poke_word(&mut sys, 0x200, 0x00EE);
    assert_eq!(sys.step(), Err(StepError::EmptyStackReturn));
    assert!(sys.cpu.is_halted());
    assert_eq!(sys.cpu.pc, 0x200);
}

#[test]
fn seventeenth_call_overflows_the_stack() {
    let mut sys = System::new();
    poke_word(&mut sys, 0x200, 0x2200); // CALL 0x200: calls itself
    for n in 1..=16 {
        assert_eq!(sys.step(), Ok(()), "call {n} fits");
        assert_eq!(sys.cpu.stack.len(), n);
    }
    assert_eq!(sys.step(), Err(StepError::CallStackOverflow));
    assert_eq!(sys.cpu.stack.len(), 16, "the machine is left unchanged");
    assert_eq!(sys.cpu.pc, 0x200);
}

#[test]
fn fetch_at_the_last_byte_is_out_of_range() {
    let mut sys = System::new();
    sys.cpu.pc = 4095;
    assert_eq!(sys.step(), Err(StepError::OutOfRangeAccess));
    assert_eq!(sys.cpu.pc, 4095);
}

#[test]
fn sprite_bytes_past_memory_are_out_of_range() {
    let mut sys = System::new();
    poke_word(&mut sys, 0x200, 0xAFFF); // LD I, 0xFFF
    poke_word(&mut sys, 0x202, 0xD012); // DRW V0, V1, 2: bytes 4095..4097
    assert_eq!(sys.step(), Ok(()));
    assert_eq!(sys.step(), Err(StepError::OutOfRangeAccess));
    assert_eq!(sys.cpu.pc, 0x202);
    assert!(!sys.draw_screen);
}

#[test]
fn block_store_past_memory_is_out_of_range() {
    let mut sys = System::new();
    poke_word(&mut sys, 0x200, 0xAFFA); // LD I, 0xFFA (4090)
    poke_word(&mut sys, 0x202, 0xFF55); // LD [I], VF: 16 bytes from 4090
    assert_eq!(sys.step(), Ok(()));
    assert_eq!(sys.step(), Err(StepError::OutOfRangeAccess));
    assert_eq!(sys.cpu.pc, 0x202);
}

#[test]
fn draw_instruction_blits_sets_the_flag_and_marks_the_frame_dirty() {
    let mut sys = System::new();
    // Sprite data 0xFF at 0x400; draw it twice at (0, 0).
    sys.cpu.store_byte_mem(0x400, 0xFF);
    poke_word(&mut sys, 0x200, 0xA400); // LD I, 0x400
    poke_word(&mut sys, 0x202, 0xD011); // DRW V0, V1, 1
    poke_word(&mut sys, 0x204, 0xD011); // DRW V0, V1, 1
    assert_eq!(sys.step(), Ok(()));
    assert!(!sys.draw_screen);
    assert_eq!(sys.step(), Ok(()));
    assert!(sys.draw_screen);
    assert_eq!(sys.cpu.vregs[15], 0, "first draw on a blank grid: no collision");
    for c in 0..8 {
        assert!(sys.display.pixel(0, c));
    }
    sys.draw_screen = false;
    assert_eq!(sys.step(), Ok(()));
    assert!(sys.draw_screen);
    assert_eq!(sys.cpu.vregs[15], 1, "redraw erases: collision flag set");
    for c in 0..8 {
        assert!(!sys.display.pixel(0, c));
    }
}

#[test]
fn draw_uses_the_font_glyphs_loaded_at_construction() {
    let mut sys = System::new();
    // Glyph 0 is 0xF0 0x90 0x90 0x90 0xF0 at address 0.
    assert_eq!(sys.cpu.get_byte_mem(0), 0xF0);
    assert_eq!(sys.cpu.get_byte_mem(4), 0xF0);
    assert_eq!(sys.cpu.get_byte_mem(50), 0xF0, "glyph A starts at 50");
    poke_word(&mut sys, 0x200, 0xF029); // LD F, V0 (V0 == 0)
    poke_word(&mut sys, 0x202, 0xD015); // DRW V0, V1, 5
    assert_eq!(sys.step(), Ok(()));
    assert_eq!(sys.cpu.i, 0);
    assert_eq!(sys.step(), Ok(()));
    // Top row of glyph 0 is 0xF0: four pixels on.
    for c in 0..4 {
        assert!(sys.display.pixel(0, c));
    }
    for c in 4..8 {
        assert!(!sys.display.pixel(0, c));
    }
    // Middle row 0x90: pixels 0 and 3.
    assert!(sys.display.pixel(1, 0));
    assert!(!sys.display.pixel(1, 1));
    assert!(!sys.display.pixel(1, 2));
    assert!(sys.display.pixel(1, 3));
}

#[test]
fn random_result_is_masked() {
    for _ in 0..32 {
        let mut sys = System::new();
        poke_word(&mut sys, 0x200, 0xC3F0); // RND V3, 0xF0
        assert_eq!(sys.step(), Ok(()));
        assert_eq!(sys.cpu.vregs[3] & 0x0F, 0, "masked bits must be clear");
        assert_eq!(sys.cpu.pc, 0x202);
    }
}

#[test]
fn register_and_timer_instructions_move_values() {
    let mut sys = System::new();
    poke_word(&mut sys, 0x200, 0x6307); // LD V3, 7
    poke_word(&mut sys, 0x202, 0xF315); // LD DT, V3
    poke_word(&mut sys, 0x204, 0xF418); // LD ST, V4 (V4 == 0)
    poke_word(&mut sys, 0x206, 0xF507); // LD V5, DT
    for _ in 0..4 {
        assert_eq!(sys.step(), Ok(()));
    }
    assert_eq!(sys.cpu.get_delay_timer(), 7);
    assert_eq!(sys.cpu.get_sound_timer(), 0);
    assert_eq!(sys.cpu.vregs[5], 7);
}
