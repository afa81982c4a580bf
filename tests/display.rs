use chip8_core::display::{expand, Display, DEFAULT_FONT};

#[test]
fn expand_doubles_each_bit() {
    assert_eq!(expand(0), 0);
    assert_eq!(expand(0xFF), 0xFFFF);
    assert_eq!(expand(0b0101_0111), 0b0011_0011_0011_1111);
    assert_eq!(expand(0b1010_1010), 0b1100_1100_1100_1100);
    for b in 0..=255u8 {
        let e = expand(b);
        for i in 0..8 {
            let bit = (b >> i) & 1;
            assert_eq!((e >> (2 * i)) & 1, bit as u16);
            assert_eq!((e >> (2 * i + 1)) & 1, bit as u16);
        }
    }
}

#[test]
fn new_display_is_blank_low_res_clean() {
    let mut d = Display::new();
    assert!(!d.hi_res());
    assert!(!d.dirty());
    assert!(d.read().iter().all(|r| *r == 0));
    let d2 = Display::default();
    assert!(!d2.hi_res());
}

#[test]
fn mode_toggles() {
    let mut d = Display::new();
    d.hi_res_mode();
    assert!(d.hi_res());
    d.low_res_mode();
    assert!(!d.hi_res());
}

#[test]
fn low_res_write_doubles_both_axes() {
    let mut d = Display::new();
    let erased = d.write(0x80, 0, 0);
    assert!(!erased);
    assert!(d.dirty());
    let rows = *d.read();
    assert!(!d.dirty());
    // 0x80 expands to 0xC000, placed at the left edge of rows 0 and 1.
    assert_eq!(rows[0], 0xC000u128 << 112);
    assert_eq!(rows[1], 0xC000u128 << 112);
    assert!(rows[2..].iter().all(|r| *r == 0));
    assert!(d.read_px(0, 0));
    assert!(d.read_px(1, 1));
    assert!(!d.read_px(2, 0));
}

#[test]
fn low_res_write_position_doubled() {
    let mut d = Display::new();
    d.write(0xFF, 3, 2);
    // x = 6, y = 4 in the packed surface.
    for px in 6..22 {
        assert!(d.read_px(px, 4));
        assert!(d.read_px(px, 5));
    }
    assert!(!d.read_px(5, 4));
    assert!(!d.read_px(22, 4));
    assert!(!d.read_px(6, 3));
    assert!(!d.read_px(6, 6));
}

#[test]
fn hi_res_write_single_row() {
    let mut d = Display::new();
    d.hi_res_mode();
    d.write(0xFF, 0, 5);
    let rows = *d.read();
    assert_eq!(rows[5], 0xFFu128 << 112);
    assert_eq!(rows[6], 0);
}

#[test]
fn write_wraps_around_the_row() {
    let mut d = Display::new();
    d.hi_res_mode();
    d.write(0xFF, 120, 70);
    let rows = *d.read();
    // x = 120: the byte rotates left by 112 - 120, i.e. right by 8.
    assert_eq!(rows[6], 0xFFu128.rotate_right(8));
}

#[test]
fn collision_law() {
    let mut d = Display::new();
    assert!(!d.write(0x3C, 10, 7));
    let once = *d.read();
    assert!(once.iter().any(|r| *r != 0));
    assert!(d.write(0x3C, 10, 7));
    assert!(d.read().iter().all(|r| *r == 0));

    let mut h = Display::new();
    h.hi_res_mode();
    assert!(!h.write(0x81, 50, 30));
    assert!(h.write(0x81, 50, 30));
    assert!(h.read().iter().all(|r| *r == 0));
}

#[test]
fn partial_overlap_reports_erasure() {
    let mut d = Display::new();
    d.hi_res_mode();
    assert!(!d.write(0xF0, 0, 0));
    assert!(d.write(0x18, 0, 0));
}

#[test]
fn scroll_down_boundary() {
    for n in 0..=2u32 {
        let mut d = Display::new();
        d.hi_res_mode();
        for y in 0..64 {
            d.write(0xFF, 0, y);
        }
        d.scroll_down(n);
        let rows = *d.read();
        assert_eq!(rows.len(), 64);
        assert_eq!(rows[0], 0);
        assert_eq!(rows[1], 0);
        assert!(rows[2..].iter().all(|r| *r == 0xFFu128 << 112));
    }
}

#[test]
fn scroll_down_moves_rows() {
    let mut d = Display::new();
    d.hi_res_mode();
    d.write(0x01, 0, 10);
    d.scroll_down(3);
    let rows = *d.read();
    assert_eq!(rows[13], 0x01u128 << 112);
    assert_eq!(rows[10], 0);
}

#[test]
fn scroll_down_wraps_stale_rows() {
    let mut d = Display::new();
    d.hi_res_mode();
    d.write(0x01, 0, 62);
    d.scroll_down(4);
    let rows = *d.read();
    // Row 62 rotates to row 2, below the two blanked rows.
    assert_eq!(rows[2], 0x01u128 << 112);
}

#[test]
fn scroll_side_round_trip() {
    let mut d = Display::new();
    d.hi_res_mode();
    for y in 0..64 {
        d.write((y * 7 + 1) as u8, y * 3, y);
    }
    let before = *d.read();
    d.scroll_side(1);
    let after = *d.read();
    assert_ne!(before, after);
    d.scroll_side(-1);
    assert_eq!(*d.read(), before);
}

#[test]
fn scroll_side_directions_and_zero() {
    let mut d = Display::new();
    d.hi_res_mode();
    d.write(0x01, 0, 0);
    let start = d.read()[0];
    d.scroll_side(4);
    assert_eq!(d.read()[0], start >> 4);
    d.scroll_side(-8);
    assert_eq!(d.read()[0], start << 4);
    let now = *d.read();
    d.scroll_side(0);
    assert_eq!(*d.read(), now);
    d.scroll_side(i32::MIN);
    assert_eq!(*d.read(), now);
}

#[test]
fn clear_blanks_and_marks_dirty() {
    let mut d = Display::new();
    d.write(0xFF, 1, 1);
    d.read();
    d.clear();
    assert!(d.dirty());
    assert!(d.read().iter().all(|r| *r == 0));
}

#[test]
fn default_font_layout() {
    assert_eq!(DEFAULT_FONT.len(), 240);
    assert_eq!(&DEFAULT_FONT[0..5], &[0xF0, 0x90, 0x90, 0x90, 0xF0]);
    assert_eq!(&DEFAULT_FONT[80..90], &[0xFF, 0xFF, 0xC3, 0xC3, 0xC3, 0xC3, 0xC3, 0xC3, 0xFF, 0xFF]);
}

#[test]
fn scroll_down_large_counts_wrap_modulo_64() {
    for (n, shift) in [(65u32, 1usize), (64, 0), (130, 2), (u32::MAX, 63)] {
        let mut d = Display::new();
        d.hi_res_mode();
        d.write(0x01, 0, 20);
        d.scroll_down(n);
        let rows = *d.read();
        let target = (20 + shift) % 64;
        for (y, row) in rows.iter().enumerate() {
            if y == target {
                assert_eq!(*row, 0x01u128 << 112);
            } else {
                assert_eq!(*row, 0);
            }
        }
    }
}
