use chip8::display::Display;
use chip8::display::RES_WIDTH;

#[test]
fn new_display_is_all_off() {
    let mut d = Display::new();
    assert_eq!(d.as_buffer(), [false; 2048]);
}

#[test]
fn clear_turns_every_pixel_off() {
    let mut d = Display::new();
    d.draw(vec![0xFF, 0xFF], 10, 10);
    assert_ne!(d.as_buffer(), [false; 2048]);
    d.clear();
    assert_eq!(d.as_buffer(), [false; 2048]);
}

#[test]
fn draw_sets_the_pixels_under_set_bits() {
    let mut d = Display::new();
    let hit = d.draw(vec![0b1010_0000], 0, 0);
    assert_eq!(hit, false);
    let buffer = d.as_buffer();
    assert_eq!(buffer[0..4], [true, false, true, false]);
}

#[test]
fn draw_wraps_the_anchor_point() {
    let mut d = Display::new();
    d.draw(vec![0b1000_0000], 64, 32);
    assert_eq!(d.as_buffer()[0], true);
}

#[test]
fn draw_clips_at_the_right_edge() {
    let mut d = Display::new();
    d.draw(vec![0xFF], 60, 0);
    let buffer = d.as_buffer();
    assert_eq!(buffer[60..64], [true, true, true, true]);
    // the clipped half does not wrap onto the next row
    assert_eq!(buffer[64..72], [false; 8]);
}

#[test]
fn draw_clips_at_the_bottom_edge() {
    let mut d = Display::new();
    d.draw(vec![0b1000_0000, 0b1000_0000], 0, 31);
    let buffer = d.as_buffer();
    assert_eq!(buffer[31 * RES_WIDTH], true);
    // the clipped row does not wrap back to the top
    assert_eq!(buffer[0], false);
}

#[test]
fn draw_reports_a_collision_only_when_it_unsets_a_pixel() {
    let mut d = Display::new();
    let first = d.draw(vec![0b1100_0000], 5, 5);
    assert_eq!(first, false);
    let second = d.draw(vec![0b0100_0000], 5, 5);
    assert_eq!(second, true);
    let third = d.draw(vec![0b0100_0000], 5, 5);
    assert_eq!(third, false);
}
