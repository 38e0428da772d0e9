use chip8::screen::Screen;

fn lit_count(s: &Screen) -> usize {
    let mut n = 0;
    for y in 0..64 {
        for x in 0..128 {
            if s.get(x, y) {
                n += 1;
            }
        }
    }
    n
}

#[test]
fn new_screen_is_blank_and_extended() {
    let s = Screen::new(800, 480);
    assert_eq!(lit_count(&s), 0);
    assert!(s.is_extended());
    assert_eq!(s.width, 800);
    assert_eq!(s.height, 480);
}

#[test]
fn set_and_clear() {
    let mut s = Screen::new(1, 1);
    s.set(127, 63);
    s.set(0, 0);
    assert!(s.get(127, 63));
    assert!(s.get(0, 0));
    assert_eq!(lit_count(&s), 2);
    s.clear();
    assert_eq!(lit_count(&s), 0);
}

#[test]
fn resize_keeps_the_grid() {
    let mut s = Screen::new(1, 2);
    s.set(4, 5);
    s.resize(30, 40);
    assert_eq!(s.width, 30);
    assert_eq!(s.height, 40);
    assert!(s.get(4, 5));
}

#[test]
fn draw_lights_the_set_bits() {
    let mut s = Screen::new(1, 1);
    let vf = s.draw(2, 3, vec![0b1010_0000, 0b0000_0001]);
    assert_eq!(vf, 0);
    assert!(s.get(2, 3));
    assert!(!s.get(3, 3));
    assert!(s.get(4, 3));
    assert!(s.get(9, 4));
    assert_eq!(lit_count(&s), 3);
}

#[test]
fn draw_twice_restores_and_reports_collision() {
    let mut s = Screen::new(1, 1);
    let sprite = vec![0xF0, 0x90, 0x90, 0x90, 0xF0];
    let first = s.draw(10, 5, sprite.clone());
    assert_eq!(first, 0);
    assert_eq!(lit_count(&s), 14);
    let second = s.draw(10, 5, sprite);
    assert_eq!(second, 1);
    assert_eq!(lit_count(&s), 0);
}

#[test]
fn draw_wraps_at_64_columns_and_32_rows() {
    let mut s = Screen::new(1, 1);
    let vf = s.draw(62, 31, vec![0b1111_0000, 0b1000_0000]);
    assert_eq!(vf, 0);
    assert!(s.get(62, 31));
    assert!(s.get(63, 31));
    assert!(s.get(0, 31));
    assert!(s.get(1, 31));
    assert!(s.get(62, 0));
    assert_eq!(lit_count(&s), 5);
}

#[test]
fn draw_wraps_large_coordinates() {
    let mut s = Screen::new(1, 1);
    s.draw(64 * 3 + 1, 32 * 5 + 2, vec![0x80]);
    assert!(s.get(1, 2));
    assert_eq!(lit_count(&s), 1);
}

#[test]
fn draw_ignores_bits_above_the_low_byte() {
    let mut s = Screen::new(1, 1);
    let vf = s.draw(0, 0, vec![0xff00]);
    assert_eq!(vf, 0);
    assert_eq!(lit_count(&s), 0);
}

#[test]
fn draw_on_a_lit_pixel_collides_once() {
    let mut s = Screen::new(1, 1);
    s.set(0, 0);
    let vf = s.draw(0, 0, vec![0xC0]);
    assert_eq!(vf, 1);
    assert!(!s.get(0, 0));
    assert!(s.get(1, 0));
}

#[test]
fn empty_sprite_changes_nothing() {
    let mut s = Screen::new(1, 1);
    s.set(5, 5);
    let vf = s.draw(5, 5, Vec::new());
    assert_eq!(vf, 0);
    assert!(s.get(5, 5));
}

#[test]
fn render_lists_lit_pixels_row_by_row() {
    let mut s = Screen::new(1, 1);
    assert!(s.render().is_empty());
    s.set(5, 2);
    s.set(127, 0);
    s.set(0, 2);
    assert_eq!(s.render(), vec![(127, 0), (0, 2), (5, 2)]);
}
