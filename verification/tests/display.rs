use chip8::screen::{get_mask, Screen};

fn lit_columns(screen: &Screen, y: usize) -> Vec<usize> {
    (0..64).filter(|&x| screen.get_pixel(x, y)).collect()
}

#[test]
fn new_screen_is_blank() {
    let screen = Screen::new();
    for y in 0..32 {
        for x in 0..64 {
            assert!(!screen.get_pixel(x, y));
        }
    }
}

#[test]
fn clear_unsets_everything() {
    let mut screen = Screen::new();
    screen.draw_sprite(3, 4, &[0xFF, 0x81, 0xFF]);
    screen.draw_sprite(60, 30, &[0xAA, 0x55, 0xAA]);
    screen.clear();
    assert_eq!(screen.pixels, [0u64; 32]);
}

#[test]
fn full_row_at_right_edge_wraps_to_the_left() {
    let mut screen = Screen::new();
    assert!(!screen.draw_sprite(60, 0, &[0xFF]));
    assert_eq!(lit_columns(&screen, 0), vec![0, 1, 2, 3, 60, 61, 62, 63]);
    assert_eq!(screen.pixels[0], 0xF000_0000_0000_000F);
    for y in 1..32 {
        assert_eq!(screen.pixels[y], 0);
    }
}

#[test]
fn drawing_twice_restores_the_display() {
    let mut screen = Screen::new();
    screen.draw_sprite(10, 5, &[0x3C, 0x42, 0x81]);
    screen.draw_sprite(59, 31, &[0xF0, 0x0F]);
    let before = screen.pixels;
    let sprite = [0xFF, 0x18, 0xA5, 0x00, 0x7E];
    let first = screen.draw_sprite(58, 29, &sprite);
    assert!(first);
    assert_ne!(screen.pixels, before);
    screen.draw_sprite(58, 29, &sprite);
    assert_eq!(screen.pixels, before);
}

#[test]
fn sprite_pixels_land_msb_first() {
    let mut screen = Screen::new();
    screen.draw_sprite(8, 2, &[0b1010_0001]);
    assert_eq!(lit_columns(&screen, 2), vec![8, 10, 15]);
}

#[test]
fn collision_only_when_a_set_pixel_goes_off() {
    let mut screen = Screen::new();
    assert!(!screen.draw_sprite(0, 0, &[0b1111_0000]));
    // disjoint pixels of the same row: no collision
    assert!(!screen.draw_sprite(0, 0, &[0b0000_1111]));
    assert_eq!(screen.pixels[0] >> 56, 0xFF);
    // one pixel in common
    assert!(screen.draw_sprite(7, 0, &[0b1000_0000]));
    assert_eq!(screen.pixels[0] >> 56, 0xFE);
    // an empty sprite row never collides
    assert!(!screen.draw_sprite(0, 0, &[0]));
    // nor does an empty sprite
    assert!(!screen.draw_sprite(0, 0, &[]));
    assert_eq!(screen.pixels[0] >> 56, 0xFE);
}

#[test]
fn collision_across_the_wrapped_edge() {
    let mut screen = Screen::new();
    screen.draw_sprite(0, 31, &[0x80, 0x80]);
    assert!(screen.get_pixel(0, 31));
    assert!(screen.get_pixel(0, 0));
    assert!(screen.draw_sprite(57, 0, &[0x01]));
    assert!(!screen.get_pixel(0, 0));
    assert!(screen.get_pixel(0, 31));
}

#[test]
fn start_coordinates_wrap_too() {
    let mut wrapped = Screen::new();
    let mut plain = Screen::new();
    wrapped.draw_sprite(64 + 5, 32 + 7, &[0xC3, 0x3C]);
    plain.draw_sprite(5, 7, &[0xC3, 0x3C]);
    assert_eq!(wrapped.pixels, plain.pixels);
    assert_eq!(lit_columns(&plain, 7), vec![5, 6, 11, 12]);
    assert_eq!(lit_columns(&plain, 8), vec![7, 8, 9, 10]);

    let mut far = Screen::new();
    far.draw_sprite(usize::MAX, usize::MAX, &[0xFF]);
    assert_eq!(lit_columns(&far, 31), vec![0, 1, 2, 3, 4, 5, 6, 63]);
}

#[test]
fn sprite_taller_than_the_display_wraps_onto_itself() {
    let mut screen = Screen::new();
    let mut sprite = vec![0u8; 33];
    sprite[0] = 0xF0;
    sprite[32] = 0x30;
    // row 32 lands on row 0 again and switches two of its pixels off
    assert!(screen.draw_sprite(0, 0, &sprite));
    assert_eq!(screen.pixels[0] >> 56, 0xC0);
}

#[test]
fn mask_values() {
    assert_eq!(get_mask(0xFF, 0), 0xFF00_0000_0000_0000);
    assert_eq!(get_mask(0xFF, 56), 0xFF);
    assert_eq!(get_mask(0xFF, 57), 0x8000_0000_0000_007F);
    assert_eq!(get_mask(0xFF, 63), 0xFE00_0000_0000_0001);
    assert_eq!(get_mask(0x81, 28), 0x81 << 28);
    assert_eq!(get_mask(0, 60), 0);
}

#[test]
fn mask_is_periodic_in_the_column() {
    for x in 0..64usize {
        for byte in [0x01u8, 0x80, 0xA5, 0xFF] {
            assert_eq!(get_mask(byte, x + 64), get_mask(byte, x));
            assert_eq!(get_mask(byte, x + 640), get_mask(byte, x));
        }
    }
}

#[test]
fn get_pixel_reads_the_corners() {
    let mut screen = Screen::new();
    screen.pixels[31] = 1;
    screen.pixels[0] = 1 << 63;
    assert!(screen.get_pixel(63, 31));
    assert!(screen.get_pixel(0, 0));
    assert!(!screen.get_pixel(63, 0));
    assert!(!screen.get_pixel(0, 31));
}
