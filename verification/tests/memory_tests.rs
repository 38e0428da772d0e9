use chip8::keys::KeyPad;
use chip8::memory::{fontset, Memory};

#[test]
fn new_memory_is_zero() {
    let m = Memory::new();
    for i in 0..4096 {
        assert_eq!(m.get(i), 0);
    }
}

#[test]
fn clear_seeds_the_glyph_table_and_zeroes_the_rest() {
    let mut m = Memory::new();
    m.save(0x300, 7);
    m.save(3, 0);
    m.clear();
    let font = fontset();
    for i in 0..4096 {
        let expected = if i < 80 { font[i] } else { 0 };
        assert_eq!(m.get(i), expected);
    }
    assert_eq!(m.get(0), 0xF0);
    assert_eq!(m.get(5), 0x20);
    assert_eq!(m.get(79), 0x80);
    assert_eq!(m.get(80), 0);
}

#[test]
fn clear_twice_gives_the_same_image() {
    let mut m = Memory::new();
    m.load(&[1, 2, 3]);
    m.clear();
    let once = m.memory;
    m.clear();
    assert_eq!(once.to_vec(), m.memory.to_vec());
}

#[test]
fn load_copies_to_the_program_base_and_keeps_the_font() {
    let mut m = Memory::new();
    m.clear();
    m.load(&[0x60, 0x01, 0x61, 0x02]);
    assert_eq!(m.get(0x1ff), 0);
    assert_eq!(m.get(0x200), 0x60);
    assert_eq!(m.get(0x201), 0x01);
    assert_eq!(m.get(0x202), 0x61);
    assert_eq!(m.get(0x203), 0x02);
    assert_eq!(m.get(0x204), 0);
    assert_eq!(m.get(0), 0xF0);
}

#[test]
fn load_does_not_clear_what_was_there() {
    let mut m = Memory::new();
    m.save(0x210, 9);
    m.load(&[1]);
    assert_eq!(m.get(0x210), 9);
    assert_eq!(m.get(0x200), 1);
}

#[test]
fn load_fills_up_to_the_last_byte() {
    let mut m = Memory::new();
    let image = vec![0xaau8; 4096 - 0x200];
    m.load(&image);
    assert_eq!(m.get(4095), 0xaa);
    assert_eq!(m.get(0x1ff), 0);
}

#[test]
fn save_then_get() {
    let mut m = Memory::new();
    m.save(4095, 0xfe);
    assert_eq!(m.get(4095), 0xfe);
    assert_eq!(m.get(4094), 0);
}

#[test]
fn keypad_starts_released_and_clears_single_keys() {
    let mut k = KeyPad::new();
    for i in 0..16 {
        assert!(!k.get(i));
    }
    k.keys[3] = true;
    k.keys[7] = true;
    assert!(k.get(3));
    k.clear_key(3);
    assert!(!k.get(3));
    assert!(k.get(7));
    k.reset();
    for i in 0..16 {
        assert!(!k.get(i));
    }
}
