//! Program images: wrapping, sizing, word pairing, and loading into
//! memory at the program start address.

use chip8::rom::ROM;
use chip8::system::System;

#[test]
fn rom_keeps_its_bytes() {
    let rom = ROM::new(vec![1, 2, 3]);
    assert_eq!(rom.size(), 3);
    assert_eq!(rom.data(), &vec![1, 2, 3]);
}

#[test]
fn words_pair_bytes_big_endian() {
    let rom = ROM::new(vec![0x6A, 0x02, 0x12, 0x00]);
    assert_eq!(rom.words(), vec![0x6A02, 0x1200]);
}

#[test]
fn words_of_an_odd_image_end_in_a_lone_high_byte() {
    let rom = ROM::new(vec![0x6A, 0x02, 0x12]);
    assert_eq!(rom.words(), vec![0x6A02, 0x1200]);
    let rom = ROM::new(vec![0xAB]);
    assert_eq!(rom.words(), vec![0xAB00]);
    let rom = ROM::new(Vec::new());
    assert_eq!(rom.words(), Vec::<u16>::new());
}

#[test]
fn load_rom_writes_at_the_program_start() {
    let mut sys = System::new();
    let rom = ROM::new(vec![0x6A, 0x02, 0x12, 0x00]);
    sys.load_rom(&rom);
    assert_eq!(sys.cpu.get_byte_mem(0x200), 0x6A);
    assert_eq!(sys.cpu.get_byte_mem(0x201), 0x02);
    assert_eq!(sys.cpu.get_byte_mem(0x202), 0x12);
    assert_eq!(sys.cpu.get_byte_mem(0x203), 0x00);
    assert_eq!(sys.cpu.get_byte_mem(0x204), 0, "bytes past the image stay");
    assert_eq!(sys.cpu.get_byte_mem(0), 0xF0, "the font below 0x200 stays");
}

#[test]
fn loaded_program_runs() {
    let mut sys = System::new();
    sys.load_rom(&ROM::new(vec![0x6A, 0x02, 0x12, 0x02]));
    assert_eq!(sys.step(), Ok(()));
    assert_eq!(sys.cpu.vregs[0xA], 2);
    assert_eq!(sys.step(), Ok(()));
    assert!(sys.cpu.is_halted(), "a jump to its own address halts");
}
