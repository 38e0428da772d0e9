use chip8::opcode::{hex, Opcode};

#[test]
fn fields_are_views_of_every_word() {
    for c in 0..=0xffffu32 {
        let c = c as u16;
        let op = Opcode::new(c);
        assert_eq!(op.x(), ((c >> 8) & 0xf) as usize);
        assert_eq!(op.y(), ((c >> 4) & 0xf) as usize);
        assert_eq!(op.n(), c & 0xf);
        assert_eq!(op.kk(), c & 0xff);
        assert_eq!(op.nnn(), c & 0xfff);
    }
}

#[test]
fn fields_of_a_draw_word() {
    let op = Opcode::new(0xd125);
    assert_eq!(op.x(), 1);
    assert_eq!(op.y(), 2);
    assert_eq!(op.n(), 5);
    assert_eq!(op.kk(), 0x25);
    assert_eq!(op.nnn(), 0x125);
}

#[test]
fn clear_zeroes_the_word() {
    let mut op = Opcode::new(0xabcd);
    op.clear();
    assert_eq!(op.code, 0);
}

#[test]
fn hex_writes_upper_case_without_prefix() {
    assert_eq!(hex(0), "0");
    assert_eq!(hex(9), "9");
    assert_eq!(hex(10), "A");
    assert_eq!(hex(255), "FF");
    assert_eq!(hex(0x206), "206");
    assert_eq!(hex(0xffff), "FFFF");
    assert_eq!(hex(0x1000), "1000");
}

#[test]
fn disassembly_of_the_system_family() {
    assert_eq!(Opcode::new(0x00e0).dessemble(), "CLR");
    assert_eq!(Opcode::new(0x00ee).dessemble(), "RET");
    assert_eq!(Opcode::new(0x0123).dessemble(), "SYS 123");
    assert_eq!(Opcode::new(0x0000).dessemble(), "SYS 0");
}

#[test]
fn disassembly_of_jumps_and_skips() {
    assert_eq!(Opcode::new(0x1206).dessemble(), "JP 206");
    assert_eq!(Opcode::new(0x2abc).dessemble(), "CALL ABC");
    assert_eq!(Opcode::new(0x3a12).dessemble(), "SE VA, 12");
    assert_eq!(Opcode::new(0x4b00).dessemble(), "SNE VB, 0");
    assert_eq!(Opcode::new(0x5120).dessemble(), "SE V1, V2");
    assert_eq!(Opcode::new(0x9340).dessemble(), "SNE V3, V4");
    assert_eq!(Opcode::new(0xb300).dessemble(), "JP V0, 300");
}

#[test]
fn disassembly_of_loads_and_arithmetic() {
    assert_eq!(Opcode::new(0x6001).dessemble(), "LD V0, 1");
    assert_eq!(Opcode::new(0x7fff).dessemble(), "ADD VF, FF");
    assert_eq!(Opcode::new(0x8010).dessemble(), "LD V0, V1");
    assert_eq!(Opcode::new(0x8011).dessemble(), "OR V0, V1");
    assert_eq!(Opcode::new(0x8012).dessemble(), "AND V0, V1");
    assert_eq!(Opcode::new(0x8013).dessemble(), "XOR V0, V1");
    assert_eq!(Opcode::new(0x8014).dessemble(), "ADD V0, V1");
    assert_eq!(Opcode::new(0x8015).dessemble(), "SUB V0, V1");
    assert_eq!(Opcode::new(0x8016).dessemble(), "SHR V0");
    assert_eq!(Opcode::new(0x8017).dessemble(), "SUBN V0, V1");
    assert_eq!(Opcode::new(0x801e).dessemble(), "SHL V0");
    assert_eq!(Opcode::new(0xa123).dessemble(), "LD I, 123");
    assert_eq!(Opcode::new(0xc10f).dessemble(), "RND V1, F");
    assert_eq!(Opcode::new(0xd125).dessemble(), "DRW V1, V2, 25");
}

#[test]
fn disassembly_of_keys_timers_and_memory() {
    assert_eq!(Opcode::new(0xe19e).dessemble(), "SKP V1");
    assert_eq!(Opcode::new(0xe1a1).dessemble(), "SKNP V1");
    assert_eq!(Opcode::new(0xf207).dessemble(), "LD V2, DT");
    assert_eq!(Opcode::new(0xf20a).dessemble(), "LD V2, K");
    assert_eq!(Opcode::new(0xf215).dessemble(), "LD DT, V2");
    assert_eq!(Opcode::new(0xf218).dessemble(), "LD ST, V2");
    assert_eq!(Opcode::new(0xf21e).dessemble(), "ADD I, V2");
    assert_eq!(Opcode::new(0xf229).dessemble(), "LD F, V2");
    assert_eq!(Opcode::new(0xf233).dessemble(), "LD B, V2");
    assert_eq!(Opcode::new(0xf255).dessemble(), "LD [I], V2");
    assert_eq!(Opcode::new(0xf265).dessemble(), "LD V2, [I]");
}

#[test]
fn unknown_words_fall_back_to_the_decimal_value() {
    assert_eq!(Opcode::new(0x8018).dessemble(), "32792");
    assert_eq!(Opcode::new(0xe000).dessemble(), "57344");
    assert_eq!(Opcode::new(0xf0ff).dessemble(), "61695");
    assert_eq!(Opcode::new(0xf030).dessemble(), "61488");
}

#[test]
fn bit_operations_on_the_word() {
    let op = Opcode::new(0x8ab4);
    assert_eq!(op.bitand(0xf000), 0x8000);
    assert_eq!(op.bitand(0x000f), 0x0004);
    assert_eq!(op.bitor(0x000f), 0x8abf);
    assert_eq!(op.bitxor(0xffff), 0x754b);
}

#[test]
fn display_writes_the_hex_digits() {
    assert_eq!(Opcode::new(0x8ab4).display(), "Opcode :8AB4");
    assert_eq!(Opcode::new(0x00e0).display(), "Opcode :E0");
    assert_eq!(Opcode::new(0).display(), "Opcode :");
}
