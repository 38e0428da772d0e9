use chip8::assembler::parser::{is_nemonic, v_value, Expression, ParseError, Parser};
use chip8::assembler::Assemblier;
use chip8::chip::Chip;
use chip8::screen::Screen;
use chip8::utils::lexer::LexError;

fn assemble(source: &str) -> (Vec<u8>, Vec<ParseError>) {
    let mut assembler = Assemblier::new();
    let errors = assembler.init(source);
    assert!(assembler.has_start());
    (assembler.run(), errors)
}

fn word(source: &str) -> u16 {
    let mut parser = Parser::new(source);
    assert_eq!(parser.next_token(), Ok(true));
    match parser.get_next() {
        Ok(Expression::Opcode(code)) => code,
        other => panic!("no instruction word: {:?}", other),
    }
}

#[test]
fn assembles_three_instructions() {
    let (bytes, errors) = assemble("start: LD V0, 1; LD V1, 2; ADD V0, V1;");
    assert!(errors.is_empty());
    assert_eq!(bytes, vec![0x60, 0x01, 0x61, 0x02, 0x80, 0x14]);
}

#[test]
fn start_takes_the_commands_type_by_default_or_by_name() {
    let (bytes, errors) = assemble("start.commands:\n CLR;\n RET;\n");
    assert!(errors.is_empty());
    assert_eq!(bytes, vec![0x00, 0xe0, 0x00, 0xee]);
}

#[test]
fn lays_out_a_sprite_behind_start() {
    let mut assembler = Assemblier::new();
    let errors = assembler.init(
        "start: LD V0, 1; LD V1, 2; JP loop;\nloop.sprite: 0xF0 0x90 0x90 0x90 0xF0;",
    );
    assert!(errors.is_empty());
    let table = assembler.layout();
    assert_eq!(table, vec![("start".to_string(), 0x200), ("loop".to_string(), 0x206)]);
}

#[test]
fn resolves_a_jump_to_a_later_label() {
    let (bytes, errors) = assemble(
        "start: LD V0, 1; LD V1, 2; JP loop;\nloop.sprite: 0xF0 0x90 0x90 0x90 0xF0;",
    );
    assert!(errors.is_empty());
    assert_eq!(bytes, vec![0x60, 0x01, 0x61, 0x02, 0x12, 0x06, 0xF0, 0x90, 0x90, 0x90, 0xF0]);
}

#[test]
fn start_is_emitted_first_wherever_it_is_declared() {
    let (bytes, errors) = assemble("data.sprite: 0x01, 0x02, 0x03;\nstart: LD I, data; JP start;");
    assert!(errors.is_empty());
    assert_eq!(bytes, vec![0xa2, 0x04, 0x12, 0x00, 0x01, 0x02, 0x03]);
}

#[test]
fn later_labels_follow_the_sizes_of_earlier_ones() {
    let mut assembler = Assemblier::new();
    let errors = assembler.init(
        "start: CALL draw; JP start;\nglyph.sprite: 0x80 0x80 0x80;\ndraw.commands: LD I, glyph; DRW V0, V1, 3; RET;\nlast.commands: CLR;",
    );
    assert!(errors.is_empty());
    assert_eq!(
        assembler.layout(),
        vec![
            ("start".to_string(), 0x200),
            ("glyph".to_string(), 0x204),
            ("draw".to_string(), 0x207),
            ("last".to_string(), 0x20d),
        ]
    );
    assert_eq!(
        assembler.run(),
        vec![0x22, 0x07, 0x12, 0x00, 0x80, 0x80, 0x80, 0xa2, 0x04, 0xd0, 0x13, 0x00, 0xee, 0x00, 0xe0]
    );
}

#[test]
fn an_unknown_target_emits_nothing() {
    let (bytes, errors) = assemble("start: CLR; JP nowhere; RET;");
    assert!(errors.is_empty());
    assert_eq!(bytes, vec![0x00, 0xe0, 0x00, 0xee]);
}

#[test]
fn sprite_values_are_cut_to_eight_bits() {
    let (bytes, errors) = assemble("start: CLR;\nbig.sprite: 0x1FF 0x100;");
    assert!(errors.is_empty());
    assert_eq!(bytes, vec![0x00, 0xe0, 0xff, 0x00]);
}

#[test]
fn a_label_without_items_is_dropped() {
    let mut assembler = Assemblier::new();
    let errors = assembler.init("start: CLR;\nempty.commands:\nnext.commands: RET;");
    assert!(errors.is_empty());
    let names: Vec<String> = assembler.map.iter().map(|l| l.name.clone()).collect();
    assert_eq!(names, vec!["start".to_string(), "next".to_string()]);
}

#[test]
fn items_only_count_under_their_own_type() {
    let (bytes, errors) = assemble("start: CLR; 0x12 0x34; RET;\ndata.sprite: 0x01; CLR; 0x02;");
    assert!(errors.is_empty());
    assert_eq!(bytes, vec![0x00, 0xe0, 0x00, 0xee, 0x01, 0x02]);
}

#[test]
fn a_second_declaration_replaces_the_first() {
    let mut assembler = Assemblier::new();
    let errors = assembler.init("start: CLR;\na.commands: RET;\nstart: RET; RET;");
    assert!(errors.is_empty());
    assert_eq!(assembler.map.len(), 2);
    assert_eq!(assembler.layout(), vec![("start".to_string(), 0x200), ("a".to_string(), 0x204)]);
    assert_eq!(assembler.run(), vec![0x00, 0xee, 0x00, 0xee, 0x00, 0xee]);
}

#[test]
fn source_without_start_has_no_start() {
    let mut assembler = Assemblier::new();
    let errors = assembler.init("other.commands: CLR;");
    assert!(errors.is_empty());
    assert!(!assembler.has_start());
    let mut empty = Assemblier::new();
    assert!(empty.init("").is_empty());
    assert!(!empty.has_start());
}

#[test]
fn every_mnemonic_gives_its_word() {
    assert_eq!(word("CLR"), 0x00e0);
    assert_eq!(word("ret"), 0x00ee);
    assert_eq!(word("SE V1, 0x22"), 0x3122);
    assert_eq!(word("SE V1, V2"), 0x5120);
    assert_eq!(word("SNE VA, 0x0F"), 0x4a0f);
    assert_eq!(word("SNE va, vb"), 0x9ab0);
    assert_eq!(word("ADD V3, 0x10"), 0x7310);
    assert_eq!(word("ADD V3, V4"), 0x8344);
    assert_eq!(word("ADD I, V5"), 0xf51e);
    assert_eq!(word("OR V1, V2"), 0x8121);
    assert_eq!(word("AND V1, V2"), 0x8122);
    assert_eq!(word("XOR V1, V2"), 0x8123);
    assert_eq!(word("SUB V1, V2"), 0x8125);
    assert_eq!(word("SUBN V1, V2"), 0x8127);
    assert_eq!(word("SHR V7"), 0x8706);
    assert_eq!(word("SHL V7"), 0x870e);
    assert_eq!(word("SKP VC"), 0xec0e);
    assert_eq!(word("SKNP VC"), 0xec01);
    assert_eq!(word("RND V2, 0x0F"), 0xc20f);
    assert_eq!(word("DRW V1, V2, 5"), 0xd125);
    assert_eq!(word("LD V1, 0x7F"), 0x617f);
    assert_eq!(word("LD V1, V2"), 0x8120);
    assert_eq!(word("LD V1, K"), 0xf10a);
    assert_eq!(word("LD V1, DT"), 0xf107);
    assert_eq!(word("LD DT, V1"), 0xf115);
    assert_eq!(word("LD ST, V1"), 0xf118);
    assert_eq!(word("LD F, V1"), 0xf129);
    assert_eq!(word("LD B, V1"), 0xf133);
    assert_eq!(word("LD I, 0x300"), 0xa300);
    assert_eq!(word("LD [I], V4"), 0xf455);
    assert_eq!(word("LD V4, [I]"), 0xf465);
}

#[test]
fn jumps_keep_their_target_as_a_name() {
    let cases = [
        ("JP loop", 0x1000, "loop"),
        ("JP V0, table", 0xb000, "table"),
        ("CALL draw", 0x2000, "draw"),
        ("SYS boot", 0x0000, "boot"),
        ("LD I, glyph", 0xa000, "glyph"),
    ];
    for (source, template, target) in cases {
        let mut parser = Parser::new(source);
        assert_eq!(parser.next_token(), Ok(true));
        match parser.get_next() {
            Ok(Expression::Jump { nemode, address }) => {
                assert_eq!(nemode, template);
                assert_eq!(address, target);
            }
            other => panic!("no jump: {:?}", other),
        }
    }
}

#[test]
fn label_declarations() {
    let cases = [
        ("start:", "start", "commands"),
        ("START:", "START", "commands"),
        ("loop.sprite:", "loop", "sprite"),
        ("msg.text:", "msg", "text"),
        ("draw.commands:", "draw", "commands"),
    ];
    for (source, label, kind) in cases {
        let mut parser = Parser::new(source);
        assert_eq!(parser.next_token(), Ok(true));
        match parser.get_next() {
            Ok(Expression::Subroutine { subtype, name }) => {
                assert_eq!(name, label);
                assert_eq!(subtype, kind);
            }
            other => panic!("no label: {:?}", other),
        }
    }
}

#[test]
fn sprite_data_runs_to_the_semicolon() {
    let mut parser = Parser::new("1, 2 0x0A; 4");
    assert_eq!(parser.next_token(), Ok(true));
    match parser.get_next() {
        Ok(Expression::Sprite(data)) => assert_eq!(data, vec![1, 2, 10]),
        other => panic!("no sprite: {:?}", other),
    }
}

#[test]
fn the_end_of_input_is_the_end_marker() {
    let mut parser = Parser::new("   ");
    assert_eq!(parser.next_token(), Ok(false));
    assert!(matches!(parser.get_next(), Ok(Expression::End)));
    let mut parser = Parser::new("RND V1,");
    assert_eq!(parser.next_token(), Ok(true));
    assert!(matches!(parser.get_next(), Ok(Expression::End)));
    assert_eq!(parser.next_token(), Ok(false));
}

#[test]
fn each_error_has_its_input() {
    let mut parser = Parser::new(")");
    assert_eq!(parser.next_token(), Ok(true));
    assert!(matches!(parser.get_next(), Err(ParseError::UnexpectedToken(p)) if p.column() == 0));

    let mut parser = Parser::new("CALL");
    assert_eq!(parser.next_token(), Ok(true));
    assert!(matches!(parser.get_next(), Err(ParseError::UnexpectedEnd(_))));

    let mut parser = Parser::new("CALL JP");
    assert_eq!(parser.next_token(), Ok(true));
    assert!(matches!(parser.get_next(), Err(ParseError::Reserved(p)) if p.column() == 5));

    let mut parser = Parser::new("lonely");
    assert_eq!(parser.next_token(), Ok(true));
    assert!(matches!(parser.get_next(), Err(ParseError::Label)));

    let mut parser = Parser::new("loop.sprite");
    assert_eq!(parser.next_token(), Ok(true));
    assert!(matches!(parser.get_next(), Err(ParseError::UnexpectedEnd(_))));

    let mut parser = Parser::new("1 2");
    assert_eq!(parser.next_token(), Ok(true));
    assert!(matches!(parser.get_next(), Err(ParseError::UnexpectedEnd(_))));

    let mut parser = Parser::new("\"open");
    assert_eq!(
        parser.next_token(),
        Err(ParseError::Unclosed(LexError { quote: '"', row: 0, column: 0 }))
    );
    assert_eq!(parser.next_token(), Ok(false));
}

#[test]
fn errors_are_collected_and_reading_goes_on() {
    let mut assembler = Assemblier::new();
    let errors = assembler.init("start: CLR; ) RET; CALL JP;");
    assert_eq!(errors.len(), 2);
    assert!(matches!(errors[0], ParseError::UnexpectedToken(_)));
    assert!(matches!(errors[1], ParseError::Reserved(_)));
    assert_eq!(assembler.run(), vec![0x00, 0xe0, 0x00, 0xee]);
}

#[test]
fn mnemonics_and_registers() {
    for m in ["CLR", "RET", "SYS", "CALL", "JP", "SE", "SNE", "LD", "ADD", "OR", "AND", "XOR", "SUB",
        "SHR", "SUBN", "SHL", "RND", "DRW", "SKP", "SKNP"] {
        assert!(is_nemonic(m));
    }
    assert!(!is_nemonic("clr"));
    assert!(!is_nemonic("loop"));
    assert_eq!(v_value("V0"), 0);
    assert_eq!(v_value("v9"), 9);
    assert_eq!(v_value("VA"), 10);
    assert_eq!(v_value("vf"), 15);
    assert_eq!(v_value("VG"), 16);
    assert_eq!(v_value("V10"), 16);
    assert_eq!(v_value("X1"), 16);
}

#[test]
fn an_assembled_program_runs() {
    let (bytes, errors) = assemble("start: LD V0, 0xFF; LD V1, 2; ADD V0, V1; JP start;");
    assert!(errors.is_empty());
    let mut chip = Chip::new(Screen::new(800, 480));
    chip.reset();
    chip.load(&bytes);
    for _ in 0..4 {
        assert!(chip.can_run());
        assert!(chip.run().ok);
    }
    assert_eq!(chip.cpu.registers.v[0], 1);
    assert_eq!(chip.cpu.registers.v[15], 1);
    assert_eq!(chip.cpu.pc, 0x200);
}

#[test]
fn strict_assembly_refuses_unknown_targets() {
    let mut assembler = Assemblier::new();
    assert!(assembler.init("start: CLR; JP nowhere; RET;").is_empty());
    assert!(!assembler.is_resolved());
    assert_eq!(assembler.run_strict(), None);
    assert_eq!(assembler.run(), vec![0x00, 0xe0, 0x00, 0xee]);
}

#[test]
fn strict_assembly_gives_the_program_when_all_targets_are_labels() {
    let mut assembler = Assemblier::new();
    assert!(assembler.init("start: CLR; JP START; CALL sub1;\nsub1.commands: RET;").is_empty());
    assert!(assembler.is_resolved());
    assert_eq!(assembler.run_strict(), Some(vec![0x00, 0xe0, 0x12, 0x00, 0x22, 0x06, 0x00, 0xee]));
}
