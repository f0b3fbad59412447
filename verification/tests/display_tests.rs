//! The sprite blit: XOR semantics, the erasure-only collision rule,
//! and per-pixel wrap-around.

use chip8::display::Display;
use chip8::display::SCREEN_HEIGHT;
use chip8::display::SCREEN_WIDTH;

#[test]
fn blank_grid_has_no_set_pixel() {
    let d = Display::new();
    for r in 0..SCREEN_HEIGHT {
        for c in 0..SCREEN_WIDTH {
            assert!(!d.pixel(r, c));
        }
    }
}

#[test]
fn draw_full_byte_then_redraw_erases_and_collides() {
    let mut d = Display::new();
    let sprite = vec![0xFFu8];

    // First draw on a blank grid: exactly row 0, columns 0..8 set, no
    // collision.
    let col1 = d.draw_sprite(0, 0, &sprite);
    assert!(!col1);
    for c in 0..SCREEN_WIDTH {
        assert_eq!(d.pixel(0, c), c < 8);
    }
    for r in 1..SCREEN_HEIGHT {
        for c in 0..SCREEN_WIDTH {
            assert!(!d.pixel(r, c));
        }
    }

    // The identical draw again: the XOR clears those 8 pixels, and the
    // erasure reports a collision.
    let col2 = d.draw_sprite(0, 0, &sprite);
    assert!(col2);
    for r in 0..SCREEN_HEIGHT {
        for c in 0..SCREEN_WIDTH {
            assert!(!d.pixel(r, c));
        }
    }
}

#[test]
fn overlap_without_erasure_is_no_collision() {
    let mut d = Display::new();
    // 0xF0: left four pixels of the row; 0x0F: right four. They touch
    // the same row but no common pixel, so no erasure.
    let left = vec![0xF0u8];
    let right = vec![0x0Fu8];
    assert!(!d.draw_sprite(0, 0, &left));
    assert!(!d.draw_sprite(0, 0, &right));
    for c in 0..8 {
        assert!(d.pixel(0, c));
    }
}

#[test]
fn coordinates_wrap_per_pixel() {
    let mut d = Display::new();
    // Two rows of 0xFF at column 60, row 31: columns wrap to 0..4 and
    // the second row wraps to row 0.
    let sprite = vec![0xFFu8, 0xFF];
    assert!(!d.draw_sprite(60, 31, &sprite));
    for (row_a, row_b) in [(31usize, 0usize)] {
        for base in [row_a, row_b] {
            for c in 60..64 {
                assert!(d.pixel(base, c), "row {base} col {c}");
            }
            for c in 0..4 {
                assert!(d.pixel(base, c), "row {base} col {c}");
            }
            for c in 4..60 {
                assert!(!d.pixel(base, c), "row {base} col {c}");
            }
        }
    }
}

#[test]
fn collision_detects_erasure_not_difference() {
    let mut d = Display::new();
    assert!(!d.draw_sprite(0, 0, &vec![0b1000_0000u8]));
    // This draw changes pixels (sets new ones) but erases the one set
    // pixel too: collision.
    assert!(d.draw_sprite(0, 0, &vec![0b1100_0000u8]));
    assert!(!d.pixel(0, 0));
    assert!(d.pixel(0, 1));
}

#[test]
fn empty_sprite_changes_nothing() {
    let mut d = Display::new();
    let nothing: Vec<u8> = Vec::new();
    assert!(!d.draw_sprite(5, 5, &nothing));
    for r in 0..SCREEN_HEIGHT {
        for c in 0..SCREEN_WIDTH {
            assert!(!d.pixel(r, c));
        }
    }
}
