use chip8::virtual_buffer::{VirtualDisplay, PIXEL_OFF, PIXEL_ON, VIRTUAL_HEIGHT, VIRTUAL_WIDTH};

fn lit_pixels(display: &VirtualDisplay) -> Vec<(usize, usize)> {
    let mut lit = Vec::new();
    for y in 0..VIRTUAL_HEIGHT {
        for x in 0..VIRTUAL_WIDTH {
            if display.get_pixel(x, y) {
                lit.push((x, y));
            }
        }
    }
    lit
}

fn snapshot(display: &VirtualDisplay) -> Vec<bool> {
    display.as_slice().to_vec()
}

#[test]
fn new_display_has_the_scaled_size() {
    let display = VirtualDisplay::new(10);
    assert_eq!(display.scaled_width(), 640);
    assert_eq!(display.scaled_height(), 320);
    assert_eq!(display.as_slice().len(), 640 * 320);
}

#[test]
fn new_display_is_dark() {
    let display = VirtualDisplay::new(3);
    assert!(display.as_slice().iter().all(|on| !on));
    assert!(lit_pixels(&display).is_empty());
}

#[test]
fn set_pixel_lights_a_dark_pixel_without_collision() {
    let mut display = VirtualDisplay::new(2);
    assert!(!display.set_pixel(3, 4, true));
    assert!(display.get_pixel(3, 4));
    assert_eq!(lit_pixels(&display), vec![(3, 4)]);
}

#[test]
fn set_pixel_on_a_lit_pixel_switches_it_off_and_collides() {
    let mut display = VirtualDisplay::new(2);
    display.set_pixel(3, 4, true);
    assert!(display.set_pixel(3, 4, true));
    assert!(!display.get_pixel(3, 4));
    assert!(lit_pixels(&display).is_empty());
}

#[test]
fn set_pixel_with_false_changes_nothing() {
    let mut display = VirtualDisplay::new(2);
    assert!(!display.set_pixel(1, 1, false));
    assert!(!display.get_pixel(1, 1));
    display.set_pixel(1, 1, true);
    assert!(!display.set_pixel(1, 1, false));
    assert!(display.get_pixel(1, 1));
}

#[test]
fn coordinates_wrap_around_the_screen() {
    let mut display = VirtualDisplay::new(2);
    display.set_pixel(64 + 5, 32 + 7, true);
    assert!(display.get_pixel(5, 7));
    assert!(display.get_pixel(5 + 128, 7 + 64));
    assert_eq!(lit_pixels(&display), vec![(5, 7)]);
    assert!(display.set_pixel(5, 7, true));
    assert!(!display.get_pixel(69, 39));
}

#[test]
fn huge_coordinates_wrap_too() {
    let mut display = VirtualDisplay::new(1);
    display.set_pixel(usize::MAX, usize::MAX, true);
    assert_eq!(lit_pixels(&display), vec![(usize::MAX % 64, usize::MAX % 32)]);
}

#[test]
fn a_pixel_fills_its_whole_block() {
    let mut display = VirtualDisplay::new(3);
    display.set_pixel(63, 31, true);
    display.set_pixel(0, 0, true);
    let width = display.scaled_width();
    let height = display.scaled_height();
    let pixels = display.as_slice();
    for real_y in 0..height {
        for real_x in 0..width {
            let x = real_x / 3;
            let y = real_y / 3;
            let expected = (x == 63 && y == 31) || (x == 0 && y == 0);
            assert_eq!(pixels[real_y * width + real_x], expected);
        }
    }
}

#[test]
fn clear_switches_every_pixel_off() {
    let mut display = VirtualDisplay::new(2);
    display.set_pixel(0, 0, true);
    display.set_pixel(63, 31, true);
    display.set_pixel(10, 20, true);
    display.clear();
    assert!(display.as_slice().iter().all(|on| !on));
    assert_eq!(display.scaled_width(), 128);
}

#[test]
fn draw_sprite_draws_rows_most_significant_bit_first() {
    let mut display = VirtualDisplay::new(1);
    let glyph = [0xF0, 0x90, 0x90, 0x90, 0xF0];
    assert!(!display.draw_sprite(10, 5, 5, &glyph, true));
    let expected = vec![
        (10, 5),
        (11, 5),
        (12, 5),
        (13, 5),
        (10, 6),
        (13, 6),
        (10, 7),
        (13, 7),
        (10, 8),
        (13, 8),
        (10, 9),
        (11, 9),
        (12, 9),
        (13, 9),
    ];
    assert_eq!(lit_pixels(&display), expected);
}

#[test]
fn draw_sprite_uses_all_eight_columns() {
    let mut display = VirtualDisplay::new(1);
    assert!(!display.draw_sprite(0, 0, 1, &[0b1000_0001], false));
    assert_eq!(lit_pixels(&display), vec![(0, 0), (7, 0)]);
}

#[test]
fn drawing_twice_restores_the_display() {
    let mut display = VirtualDisplay::new(2);
    display.set_pixel(11, 6, true);
    display.set_pixel(40, 20, true);
    let before = snapshot(&display);
    let glyph = [0xF0, 0x90, 0x90, 0x90, 0xF0];
    let first = display.draw_sprite(10, 5, 5, &glyph, true);
    assert!(!first);
    assert_ne!(snapshot(&display), before);
    let second = display.draw_sprite(10, 5, 5, &glyph, true);
    assert_eq!(snapshot(&display), before);
    assert!(second);
}

#[test]
fn second_draw_collides_only_if_the_first_lit_a_pixel() {
    let mut display = VirtualDisplay::new(1);
    display.set_pixel(0, 0, true);
    display.set_pixel(1, 0, true);
    let first = display.draw_sprite(0, 0, 1, &[0xC0], false);
    assert!(first);
    assert!(lit_pixels(&display).is_empty());
    let second = display.draw_sprite(0, 0, 1, &[0xC0], false);
    assert!(!second);
    assert_eq!(lit_pixels(&display), vec![(0, 0), (1, 0)]);
}

#[test]
fn draw_sprite_reports_a_collision_for_one_shared_pixel() {
    let mut display = VirtualDisplay::new(1);
    display.set_pixel(3, 1, true);
    assert!(display.draw_sprite(0, 0, 2, &[0xFF, 0x10], false));
    assert!(!display.get_pixel(3, 1));
    assert!(display.get_pixel(3, 0));
}

#[test]
fn clipped_sprite_stops_at_the_right_edge() {
    let mut display = VirtualDisplay::new(1);
    assert!(!display.draw_sprite(60, 0, 1, &[0xFF], true));
    assert_eq!(lit_pixels(&display), vec![(60, 0), (61, 0), (62, 0), (63, 0)]);
}

#[test]
fn unclipped_sprite_wraps_at_the_right_edge() {
    let mut display = VirtualDisplay::new(1);
    assert!(!display.draw_sprite(60, 0, 1, &[0xFF], false));
    assert_eq!(
        lit_pixels(&display),
        vec![(0, 0), (1, 0), (2, 0), (3, 0), (60, 0), (61, 0), (62, 0), (63, 0)]
    );
}

#[test]
fn clipped_sprite_stops_at_the_bottom_edge() {
    let mut display = VirtualDisplay::new(1);
    assert!(!display.draw_sprite(0, 30, 4, &[0x80, 0x80, 0x80, 0x80], true));
    assert_eq!(lit_pixels(&display), vec![(0, 30), (0, 31)]);
}

#[test]
fn unclipped_sprite_wraps_at_the_bottom_edge() {
    let mut display = VirtualDisplay::new(1);
    assert!(!display.draw_sprite(0, 30, 4, &[0x80, 0x80, 0x80, 0x80], false));
    assert_eq!(lit_pixels(&display), vec![(0, 0), (0, 1), (0, 30), (0, 31)]);
}

#[test]
fn sprite_in_the_last_column_and_row_is_one_pixel_when_clipped() {
    let mut display = VirtualDisplay::new(1);
    assert!(!display.draw_sprite(63, 31, 2, &[0xFF, 0xFF], true));
    assert_eq!(lit_pixels(&display), vec![(63, 31)]);
}

#[test]
fn sprite_that_starts_beyond_the_screen_wraps_whole() {
    let mut display = VirtualDisplay::new(1);
    assert!(!display.draw_sprite(64 + 60, 32 + 31, 2, &[0xFF, 0x80], true));
    assert_eq!(
        lit_pixels(&display),
        vec![
            (60, 0),
            (0, 31),
            (1, 31),
            (2, 31),
            (3, 31),
            (60, 31),
            (61, 31),
            (62, 31),
            (63, 31)
        ]
    );
}

#[test]
fn draw_sprite_draws_no_more_rows_than_it_is_given() {
    let mut display = VirtualDisplay::new(1);
    assert!(!display.draw_sprite(0, 0, 5, &[0x80, 0x80], false));
    assert_eq!(lit_pixels(&display), vec![(0, 0), (0, 1)]);
}

#[test]
fn draw_sprite_draws_no_more_rows_than_asked() {
    let mut display = VirtualDisplay::new(1);
    assert!(!display.draw_sprite(0, 0, 1, &[0x80, 0x80, 0x80], false));
    assert_eq!(lit_pixels(&display), vec![(0, 0)]);
    assert!(!display.draw_sprite(5, 5, 0, &[0xFF], false));
    assert_eq!(lit_pixels(&display), vec![(0, 0)]);
}

#[test]
fn sprite_taller_than_the_screen_laps_itself() {
    let mut display = VirtualDisplay::new(1);
    let rows = [0x80u8; 64];
    let collision = display.draw_sprite(0, 0, 64, &rows, false);
    assert!(collision);
    assert!(lit_pixels(&display).is_empty());
}

#[test]
fn draw_sprite_at_huge_coordinates_does_not_overflow() {
    let mut display = VirtualDisplay::new(1);
    assert!(!display.draw_sprite(usize::MAX, usize::MAX, 2, &[0xC0, 0x80], true));
    assert_eq!(lit_pixels(&display), vec![(63, 0), (0, 31), (63, 31)]);
}

#[test]
fn render_writes_four_bytes_per_real_pixel() {
    let mut display = VirtualDisplay::new(1);
    display.set_pixel(1, 0, true);
    let mut frame = vec![0u8; 64 * 32 * 4];
    display.render_to_buffer(&mut frame);
    assert_eq!(&frame[0..4], &[0x1A, 0x1A, 0x1A, 0xFF]);
    assert_eq!(&frame[4..8], &[0xFF, 0xFF, 0xFF, 0xFF]);
    assert_eq!(&frame[8..12], &[0x1A, 0x1A, 0x1A, 0xFF]);
    assert_eq!(&frame[0..4], &PIXEL_OFF.to_be_bytes());
    assert_eq!(&frame[4..8], &PIXEL_ON.to_be_bytes());
    for (index, chunk) in frame.chunks(4).enumerate() {
        let expected = if index == 1 { PIXEL_ON } else { PIXEL_OFF };
        assert_eq!(chunk, &expected.to_be_bytes());
    }
}

#[test]
fn render_covers_every_real_pixel_of_a_block() {
    let mut display = VirtualDisplay::new(2);
    display.set_pixel(0, 0, true);
    let mut frame = vec![0u8; 128 * 64 * 4];
    display.render_to_buffer(&mut frame);
    let lit: Vec<usize> = frame
        .chunks(4)
        .enumerate()
        .filter(|(_, chunk)| chunk == &PIXEL_ON.to_be_bytes())
        .map(|(index, _)| index)
        .collect();
    assert_eq!(lit, vec![0, 1, 128, 129]);
}

#[test]
fn render_leaves_the_rest_of_a_longer_frame() {
    let display = VirtualDisplay::new(1);
    let mut frame = vec![0x55u8; 64 * 32 * 4 + 3];
    display.render_to_buffer(&mut frame);
    assert_eq!(&frame[64 * 32 * 4 - 4..64 * 32 * 4], &[0x1A, 0x1A, 0x1A, 0xFF]);
    assert_eq!(&frame[64 * 32 * 4..], &[0x55, 0x55, 0x55]);
}
