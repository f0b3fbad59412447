//! Real-time timer decay: 60 decrements per second, independent of how
//! the elapsed time is split into ticks.

use chip8::system::System;

fn feed(sys: &mut System, intervals: &[u64]) {
    for &micros in intervals {
        sys.update_dt_st(micros);
        let dt = sys.cpu.get_delay_timer();
        assert!(dt >= 195, "the delay timer never drops below 195 here, got {dt}");
    }
}

#[test]
fn one_second_in_one_tick_decays_sixty() {
    let mut sys = System::new();
    assert_eq!(sys.cpu.get_delay_timer(), 255);
    feed(&mut sys, &[1_000_000]);
    assert_eq!(sys.cpu.get_delay_timer(), 195);
    assert_eq!(sys.cpu.get_sound_timer(), 195);
}

#[test]
fn one_second_in_even_frames_decays_sixty() {
    let mut sys = System::new();
    // 100 frames of 10ms each.
    feed(&mut sys, &vec![10_000u64; 100]);
    assert_eq!(sys.cpu.get_delay_timer(), 195);
}

#[test]
fn one_second_in_ragged_pieces_decays_sixty() {
    let mut sys = System::new();
    // An irregular split of exactly 1,000,000 microseconds.
    let mut pieces = vec![1u64, 999, 16_667, 3, 40_000, 123_456];
    let used: u64 = pieces.iter().sum();
    pieces.push(1_000_000 - used);
    feed(&mut sys, &pieces);
    assert_eq!(sys.cpu.get_delay_timer(), 195);
    assert_eq!(sys.cpu.get_sound_timer(), 195);
}

#[test]
fn remainder_is_carried_not_reset() {
    let mut sys = System::new();
    // 16,666 microseconds is just short of one 60Hz interval.
    sys.update_dt_st(16_666);
    assert_eq!(sys.cpu.get_delay_timer(), 255);
    // One more microsecond crosses it, because the fraction carried.
    sys.update_dt_st(1);
    assert_eq!(sys.cpu.get_delay_timer(), 254);
}

#[test]
fn timers_floor_at_zero() {
    let mut sys = System::new();
    sys.cpu.set_delay_timer(2);
    sys.cpu.set_sound_timer(1);
    sys.update_dt_st(1_000_000);
    assert_eq!(sys.cpu.get_delay_timer(), 0);
    assert_eq!(sys.cpu.get_sound_timer(), 0);
}

#[test]
fn run_tick_steps_and_decays_together() {
    let mut sys = System::new();
    sys.cpu.store_byte_mem(0x200, 0x63);
    sys.cpu.store_byte_mem(0x201, 0x09); // LD V3, 9
    assert_eq!(sys.run_tick(20_000), Ok(()));
    assert_eq!(sys.cpu.vregs[3], 9);
    assert_eq!(sys.cpu.get_delay_timer(), 254);
}
