use chip8::syntax::{char_in, is_datatype, is_keyword, word_in};
use chip8::text::from_hex;
use chip8::utils::character::Character;
use chip8::utils::lexer::{LexError, Lexer};
use chip8::utils::position::Position;
use chip8::utils::token::{Token, TokenType};

fn tokens(text: &str) -> Vec<Result<TokenType, LexError>> {
    let mut lexer = Lexer::new(text);
    let mut out = Vec::new();
    while lexer.has_next() {
        out.push(lexer.get_next_token().map(|t| t.tokentype()));
    }
    out
}

fn name(t: &Result<TokenType, LexError>) -> String {
    match t {
        Ok(TokenType::Name(n)) => n.clone(),
        other => panic!("no name: {:?}", other),
    }
}

#[test]
fn character_classes() {
    assert!(Character::new('a').is_alphabetic());
    assert!(Character::new('Z').is_alphabetic());
    assert!(Character::new('_').is_alphabetic());
    assert!(Character::new('A').is_alphabetic());
    assert!(Character::new('z').is_alphabetic());
    assert!(!Character::new('[').is_alphabetic());
    assert!(!Character::new('{').is_alphabetic());
    assert!(!Character::new('@').is_alphabetic());
    assert!(!Character::new('`').is_alphabetic());
    assert!(!Character::new('1').is_alphabetic());
    assert!(!Character::new(']').is_alphabetic());
    assert!(Character::new('0').is_numeric());
    assert!(Character::new('9').is_numeric());
    assert!(!Character::new('a').is_numeric());
    assert!(Character::new('a').is_alphanumeric());
    assert!(Character::new('5').is_alphanumeric());
    assert!(!Character::new(',').is_alphanumeric());
    assert!(Character::new('f').is_hexdigit());
    assert!(Character::new('F').is_hexdigit());
    assert!(Character::new('x').is_hexdigit());
    assert!(Character::new('7').is_hexdigit());
    assert!(!Character::new('g').is_hexdigit());
    assert!(Character::new(' ').is_whitespace());
    assert!(Character::new('\n').is_whitespace());
    assert!(Character::new('\t').is_whitespace());
    assert!(!Character::new('\r').is_whitespace());
    assert_eq!(Character::new('q').unwrap(), 'q');
    assert!(Character::new('q').is('q'));
    assert!(!Character::new('q').is('p'));
    assert_eq!(Character::new('q'), Character::new('q'));
}

#[test]
fn positions() {
    let p = Position::new(3, 4, 5);
    assert_eq!((p.column(), p.line(), p.width()), (3, 4, 5));
    let q = Position::new(1, 9, 2);
    assert_eq!(p.join(q), Position::new(1, 4, 7));
    assert_eq!(p, Position::new(3, 4, 5));
    assert_ne!(p, q);
}

#[test]
fn hexadecimal_literals() {
    assert_eq!(from_hex("1"), 1);
    assert_eq!(from_hex("0"), 0);
    assert_eq!(from_hex("ff"), 255);
    assert_eq!(from_hex("0xFF"), 255);
    assert_eq!(from_hex("0x206"), 0x206);
    assert_eq!(from_hex("FFFF"), 0xffff);
    assert_eq!(from_hex("12345"), 0x2345);
    assert_eq!(from_hex(""), 0);
}

#[test]
fn tokens_of_single_characters() {
    let cases = [
        ('{', "OpenCurlyBracket"),
        ('}', "ClosingCurlyBracket"),
        ('[', "OpenSquareBracket"),
        (']', "ClosingSquareBracket"),
        ('(', "OpenBracket"),
        (')', "ClosingBracket"),
        (':', "Colon"),
        (';', "SemiColon"),
        (',', "Coma"),
        ('*', "Factor('*')"),
        ('+', "Term('+')"),
        ('-', "Term('-')"),
        ('=', "Equal"),
        ('.', "Dot"),
        ('?', "Unknown('?')"),
    ];
    for (c, expected) in cases {
        let t = Token::from_char(c, 2, 3);
        assert_eq!(format!("{:?}", t.tokentype()), expected);
        assert_eq!(t.position(), Position::new(2, 3, 1));
    }
}

#[test]
fn tokens_of_words() {
    let t = Token::from_str("loop", 1, 2);
    assert!(matches!(t.tokentype(), TokenType::Name(n) if n == "loop"));
    assert_eq!(t.position(), Position::new(1, 2, 4));
    let t = Token::from_str("true", 0, 0);
    assert!(matches!(t.tokentype(), TokenType::Boolean(n) if n == "true"));
    let t = Token::from_str("false", 0, 0);
    assert!(matches!(t.tokentype(), TokenType::Boolean(n) if n == "false"));
    let t = Token::from_str("\"hi there\"", 4, 5);
    assert!(matches!(t.tokentype(), TokenType::String(n) if n == "hi there"));
    assert_eq!(t.position(), Position::new(4, 5, 8));
    let t = Token::from_str("'x'", 0, 0);
    assert!(matches!(t.tokentype(), TokenType::String(n) if n == "x"));
    let t = Token::from_str("\"\"", 0, 0);
    assert!(matches!(t.tokentype(), TokenType::String(n) if n.is_empty()));
    let t = Token::from_str("", 0, 0);
    assert!(matches!(t.tokentype(), TokenType::Name(n) if n.is_empty()));
}

#[test]
fn tokens_of_numbers() {
    let t = Token::from_number("0x1F", 7, 8);
    assert!(matches!(t.tokentype(), TokenType::Number(0x1f)));
    assert_eq!(t.position(), Position::new(7, 8, 4));
    let t = Token::none();
    assert!(matches!(t.tokentype(), TokenType::NoToken));
    assert_eq!(t.position(), Position::new(0, 0, 0));
}

#[test]
fn lexes_an_instruction_line() {
    let ts = tokens("LD V0, 1;\n  ADD V0, V1;");
    assert_eq!(ts.len(), 10);
    assert_eq!(name(&ts[0]), "LD");
    assert_eq!(name(&ts[1]), "V0");
    assert!(matches!(ts[2], Ok(TokenType::Coma)));
    assert!(matches!(ts[3], Ok(TokenType::Number(1))));
    assert!(matches!(ts[4], Ok(TokenType::SemiColon)));
    assert_eq!(name(&ts[5]), "ADD");
    assert_eq!(name(&ts[6]), "V0");
    assert!(matches!(ts[7], Ok(TokenType::Coma)));
    assert_eq!(name(&ts[8]), "V1");
    assert!(matches!(ts[9], Ok(TokenType::SemiColon)));
}

#[test]
fn lexer_tracks_rows_and_columns() {
    let mut lexer = Lexer::new("ab cd\n  ef");
    assert!(lexer.has_next());
    let t = lexer.get_next_token().unwrap();
    assert_eq!(t.position(), Position::new(0, 0, 2));
    assert!(lexer.has_next());
    let t = lexer.get_next_token().unwrap();
    assert_eq!(t.position(), Position::new(3, 0, 2));
    assert!(lexer.has_next());
    let t = lexer.get_next_token().unwrap();
    assert_eq!(t.position(), Position::new(3, 1, 2));
    assert!(!lexer.has_next());
}

#[test]
fn lexer_passes_over_comments() {
    let ts = tokens("CLR // wipe the screen\nRET");
    assert_eq!(ts.len(), 2);
    assert_eq!(name(&ts[0]), "CLR");
    assert_eq!(name(&ts[1]), "RET");
}

#[test]
fn a_comment_at_the_end_gives_the_empty_token() {
    let ts = tokens("CLR // done");
    assert_eq!(ts.len(), 2);
    assert_eq!(name(&ts[0]), "CLR");
    assert!(matches!(ts[1], Ok(TokenType::NoToken)));
}

#[test]
fn a_single_slash_is_an_unknown_character() {
    let ts = tokens("/ 2");
    assert_eq!(ts.len(), 2);
    assert!(matches!(ts[0], Ok(TokenType::Unknown('/'))));
    assert!(matches!(ts[1], Ok(TokenType::Number(2))));
}

#[test]
fn lexes_quoted_text() {
    let ts = tokens("\"a b\" x");
    assert_eq!(ts.len(), 2);
    assert!(matches!(&ts[0], Ok(TokenType::String(s)) if s == "a b"));
    assert_eq!(name(&ts[1]), "x");
}

#[test]
fn unclosed_text_is_an_error() {
    let ts = tokens("x \"abc");
    assert_eq!(ts.len(), 2);
    assert_eq!(ts[1].as_ref().err(), Some(&LexError { quote: '"', row: 0, column: 2 }));
}

#[test]
fn empty_and_blank_input_have_no_tokens() {
    assert!(tokens("").is_empty());
    assert!(tokens("  \n\t ").is_empty());
}

#[test]
fn numbers_take_hex_digits() {
    let ts = tokens("0x1F,7");
    assert_eq!(ts.len(), 3);
    assert!(matches!(ts[0], Ok(TokenType::Number(0x1f))));
    assert!(matches!(ts[1], Ok(TokenType::Coma)));
    assert!(matches!(ts[2], Ok(TokenType::Number(7))));
}

#[test]
fn word_lists() {
    assert!(word_in(&["a", "b"], "b"));
    assert!(!word_in(&["a", "b"], "c"));
    assert!(!word_in(&[], "c"));
    for w in ["in", "as", "is", "to", "num", "str", "bool", "char", "array", "let", "fun", "for", "if",
        "when", "else", "while", "do", "and", "or", "equals", "not", "true", "false"] {
        assert!(is_keyword(w));
    }
    assert!(!is_keyword("name"));
    assert!(!is_keyword("IN"));
    for w in ["num", "str", "bool", "char", "array"] {
        assert!(is_datatype(w));
    }
    assert!(!is_datatype("let"));
    assert!(char_in("abc", 'b'));
    assert!(!char_in("abc", 'd'));
    assert!(!char_in("", 'd'));
}

#[test]
fn brackets_are_tokens_of_their_own() {
    let ts = tokens("[I]{}");
    assert_eq!(ts.len(), 5);
    assert!(matches!(ts[0], Ok(TokenType::OpenSquareBracket)));
    assert_eq!(name(&ts[1]), "I");
    assert!(matches!(ts[2], Ok(TokenType::ClosingSquareBracket)));
    assert!(matches!(ts[3], Ok(TokenType::OpenCurlyBracket)));
    assert!(matches!(ts[4], Ok(TokenType::ClosingCurlyBracket)));
}

#[test]
fn single_characters_do_not_move_the_column() {
    let mut lexer = Lexer::new("a(b");
    assert!(lexer.has_next());
    assert_eq!(lexer.get_next_token().unwrap().position(), Position::new(0, 0, 1));
    assert!(lexer.has_next());
    assert_eq!(lexer.get_next_token().unwrap().position(), Position::new(1, 0, 1));
    assert!(lexer.has_next());
    assert_eq!(lexer.get_next_token().unwrap().position(), Position::new(1, 0, 1));
}

#[test]
fn characters_join_into_text() {
    let a = Character::new('a');
    assert_eq!(a.join(Character::new('b')), "ab");
    assert_eq!(a.join_char('c'), "ac");
    assert_eq!(a.join_text("xyz".to_string()), "axyz");
    assert_eq!(a.join_text(String::new()), "a");
}

#[test]
fn positions_and_errors_in_words() {
    assert_eq!(Position::new(7, 12, 3).describe(), "Line:12 at Column: 7");
    assert_eq!(Position::new(0, 0, 0).describe(), "Line:0 at Column: 0");
    let error = LexError { quote: '"', row: 3, column: 41 };
    assert_eq!(error.message(), "Expecting a closing \" at row:3, column:41");
    let error = LexError { quote: '\'', row: 0, column: 100 };
    assert_eq!(error.message(), "Expecting a closing ' at row:0, column:100");
}
