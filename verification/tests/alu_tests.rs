//! Bit-exact ALU semantics, exhaustively over all byte values where a
//! flag is involved.

use chip8::cpu::CPU;

fn fresh() -> CPU {
    CPU::new()
}

#[test]
fn add_reg_result_and_carry_for_all_values() {
    for a in 0..=255u16 {
        for b in 0..=255u16 {
            let mut cpu = fresh();
            cpu.set_reg(1, a as u8);
            cpu.set_reg(2, b as u8);
            cpu.op_add(1, 2);
            assert_eq!(cpu.vregs[1] as u16, (a + b) % 256);
            assert_eq!(cpu.vregs[15], if a + b > 255 { 1 } else { 0 });
        }
    }
}

#[test]
fn sub_reg_result_and_borrow_for_all_values() {
    for a in 0..=255i32 {
        for b in 0..=255i32 {
            let mut cpu = fresh();
            cpu.set_reg(1, a as u8);
            cpu.set_reg(2, b as u8);
            cpu.op_sub(1, 2);
            assert_eq!(cpu.vregs[1] as i32, (a - b).rem_euclid(256));
            assert_eq!(cpu.vregs[15], if a >= b { 1 } else { 0 });
        }
    }
}

#[test]
fn shr_flag_is_the_bit_shifted_out_for_all_values() {
    for a in 0..=255u8 {
        let mut cpu = fresh();
        cpu.set_reg(3, a);
        cpu.op_shr(3);
        assert_eq!(cpu.vregs[3], a >> 1);
        assert_eq!(cpu.vregs[15], a & 1);
    }
}

#[test]
fn shl_flag_is_the_bit_shifted_out_for_all_values() {
    for a in 0..=255u8 {
        let mut cpu = fresh();
        cpu.set_reg(3, a);
        cpu.op_shl(3);
        assert_eq!(cpu.vregs[3], a.wrapping_shl(1));
        assert_eq!(cpu.vregs[15], (a & 0x80) >> 7);
    }
}

#[test]
fn subn_is_sub_with_reversed_operands() {
    let mut cpu = fresh();
    cpu.set_reg(1, 10);
    cpu.set_reg(2, 25);
    cpu.op_subn(1, 2);
    assert_eq!(cpu.vregs[1], 15);
    assert_eq!(cpu.vregs[15], 1);

    let mut cpu = fresh();
    cpu.set_reg(1, 25);
    cpu.set_reg(2, 10);
    cpu.op_subn(1, 2);
    assert_eq!(cpu.vregs[1], 241); // 10 - 25 wrapping
    assert_eq!(cpu.vregs[15], 0);
}

#[test]
fn bitwise_ops_leave_the_flag_alone() {
    let mut cpu = fresh();
    cpu.set_reg(1, 0b1100);
    cpu.set_reg(2, 0b1010);
    cpu.set_reg(15, 77);
    cpu.op_or(1, 2);
    assert_eq!(cpu.vregs[1], 0b1110);
    assert_eq!(cpu.vregs[15], 77);
    cpu.set_reg(1, 0b1100);
    cpu.op_and(1, 2);
    assert_eq!(cpu.vregs[1], 0b1000);
    assert_eq!(cpu.vregs[15], 77);
    cpu.set_reg(1, 0b1100);
    cpu.op_xor(1, 2);
    assert_eq!(cpu.vregs[1], 0b0110);
    assert_eq!(cpu.vregs[15], 77);
}

#[test]
fn add_immediate_wraps_without_a_flag() {
    let mut cpu = fresh();
    cpu.set_reg(4, 250);
    cpu.set_reg(15, 9);
    cpu.op_add_val(4, 10);
    assert_eq!(cpu.vregs[4], 4);
    assert_eq!(cpu.vregs[15], 9, "immediate add must not touch the flag");
}

#[test]
fn alu_ops_advance_the_counter_by_two() {
    let mut cpu = fresh();
    assert_eq!(cpu.pc, 0x200);
    cpu.op_add(0, 1);
    assert_eq!(cpu.pc, 0x202);
    cpu.op_shr(0);
    assert_eq!(cpu.pc, 0x204);
}

#[test]
fn bcd_writes_three_decimal_digits() {
    let mut cpu = fresh();
    cpu.set_reg(3, 254);
    cpu.i = 0x300;
    assert_eq!(cpu.op_bcd(3), Ok(()));
    assert_eq!(cpu.get_byte_mem(0x300), 2);
    assert_eq!(cpu.get_byte_mem(0x301), 5);
    assert_eq!(cpu.get_byte_mem(0x302), 4);
}

#[test]
fn store_and_load_registers_are_inclusive_of_x() {
    let mut cpu = fresh();
    for r in 0..=3u8 {
        cpu.set_reg(r, 10 + r);
    }
    cpu.set_reg(4, 99);
    cpu.i = 0x400;
    assert_eq!(cpu.op_st_regs(3), Ok(()));
    for r in 0..=3u16 {
        assert_eq!(cpu.get_byte_mem(0x400 + r as usize), 10 + r as u8);
    }
    // V4 was outside the range: its slot is untouched (still zero).
    assert_eq!(cpu.get_byte_mem(0x404), 0);

    let mut other = fresh();
    other.i = 0x400;
    for r in 0..=3u8 {
        other.store_byte_mem(0x400 + r as usize, 40 + r);
    }
    assert_eq!(other.op_ld_regs(3), Ok(()));
    for r in 0..=3u8 {
        assert_eq!(other.vregs[r as usize], 40 + r);
    }
    assert_eq!(other.vregs[4], 0, "V4 is outside the loaded range");
}

#[test]
fn font_address_is_five_bytes_per_glyph() {
    let mut cpu = fresh();
    cpu.set_reg(0, 0xA);
    cpu.op_ld_font(0);
    assert_eq!(cpu.i, 50);
    // Only the low nibble names a glyph.
    cpu.set_reg(0, 0x1A);
    cpu.op_ld_font(0);
    assert_eq!(cpu.i, 50);
}

#[test]
fn add_i_wraps_at_sixteen_bits() {
    let mut cpu = fresh();
    cpu.i = 0xFFFF;
    cpu.set_reg(0, 3);
    cpu.op_add_i(0);
    assert_eq!(cpu.i, 2);
}
