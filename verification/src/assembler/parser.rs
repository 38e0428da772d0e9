//! The assembler's parser: from tokens to instruction words, symbolic
//! jumps, label declarations and sprite data.
use vstd::prelude::*;
use vstd::string::*;
use crate::text::{chars_of, upper, same_word, same_chars, equal_chars, hex_digit_value};
use crate::utils::lexer::{Lexer, LexError, Cursor, scan, lex};
use crate::utils::position::Position;
use crate::utils::token::{Token, TokenType, Kind};

verus! {

/// Whether `name` is one of the twenty mnemonics, written in upper case.
pub open spec fn mnemonic_name(name: Seq<char>) -> bool {
    name == "CLR"@ || name == "RET"@ || name == "SYS"@ || name == "CALL"@ || name == "JP"@ || name == "SE"@
        || name == "SNE"@ || name == "LD"@ || name == "ADD"@ || name == "OR"@ || name == "AND"@ || name
        == "XOR"@ || name == "SUB"@ || name == "SHR"@ || name == "SUBN"@ || name == "SHL"@ || name == "RND"@
        || name == "DRW"@ || name == "SKP"@ || name == "SKNP"@
}

/// The register that `name` stands for: `V` in either case and one
/// hexadecimal digit give 0 to 15; any other name gives 16.
pub open spec fn register_index(name: Seq<char>) -> u16 {
    if name.len() == 2 && upper(name[0]) == 'V' && hex_digit_value(name[1]) >= 0 {
        hex_digit_value(name[1]) as u16
    } else {
        16
    }
}

/// Whether `name` is one of the twenty mnemonics, written in upper case.
pub fn is_nemonic(name: &str) -> (out: bool)
    ensures
        out == mnemonic_name(name@),
{
    let chars = chars_of(name);
    reserved(&chars)
}

fn reserved(chars: &Vec<char>) -> (out: bool)
    ensures
        out == mnemonic_name(chars@),
{
    equal_chars(chars, "CLR") || equal_chars(chars, "RET") || equal_chars(chars, "SYS") || equal_chars(
        chars,
        "CALL",
    ) || equal_chars(chars, "JP") || equal_chars(chars, "SE") || equal_chars(chars, "SNE") || equal_chars(
        chars,
        "LD",
    ) || equal_chars(chars, "ADD") || equal_chars(chars, "OR") || equal_chars(chars, "AND") || equal_chars(
        chars,
        "XOR",
    ) || equal_chars(chars, "SUB") || equal_chars(chars, "SHR") || equal_chars(chars, "SUBN")
        || equal_chars(chars, "SHL") || equal_chars(chars, "RND") || equal_chars(chars, "DRW")
        || equal_chars(chars, "SKP") || equal_chars(chars, "SKNP")
}

fn register_of(chars: &Vec<char>) -> (out: u16)
    ensures
        out == register_index(chars@),
        out <= 16,
{
    if chars.len() != 2 {
        return 16;
    }
    let head: u32 = chars[0] as u32;
    if head != 86 && head != 118 {
        return 16;
    }
    let c: u32 = chars[1] as u32;
    if 48 <= c && c <= 57 {
        (c - 48) as u16
    } else if 65 <= c && c <= 70 {
        (c - 55) as u16
    } else if 97 <= c && c <= 102 {
        (c - 87) as u16
    } else {
        16
    }
}

/// The register that `code` names: 0 to 15 for `V0` to `VF`, in either
/// case; 16 for a name that is no register.
pub fn v_value(code: &str) -> (out: u16)
    ensures
        out == register_index(code@),
        out <= 16,
{
    let chars = chars_of(code);
    register_of(&chars)
}

/// One item of assembler source.
#[derive(Debug, Clone)]
pub enum Expression {
    /// A finished instruction word.
    Opcode(u16),
    /// An instruction whose address is the place of the label `address`.
    Jump { nemode: u16, address: String },
    /// The declaration of a label and of what stands under it.
    Subroutine { subtype: String, name: String },
    /// Raw sprite bytes.
    Sprite(Vec<u16>),
    /// The end of the input.
    End,
}

/// An item of assembler source as plain values.
pub enum Node {
    Opcode(u16),
    Jump { nemode: u16, address: Seq<char> },
    Subroutine { subtype: Seq<char>, name: Seq<char> },
    Sprite(Seq<u16>),
    End,
}

impl View for Expression {
    type V = Node;

    open spec fn view(&self) -> Node {
        match *self {
            Expression::Opcode(code) => Node::Opcode(code),
            Expression::Jump { nemode, address } => Node::Jump { nemode, address: address@ },
            Expression::Subroutine { subtype, name } => Node::Subroutine { subtype: subtype@, name: name@ },
            Expression::Sprite(data) => Node::Sprite(data@),
            Expression::End => Node::End,
        }
    }
}

/// Why an item could not be read.
#[derive(Debug, Clone, Copy, PartialEq, Eq, Structural)]
pub enum ParseError {
    /// A quoted text without its closing quote.
    Unclosed(LexError),
    /// A token that starts no item.
    UnexpectedToken(Position),
    /// The input ended within an item.
    UnexpectedEnd(Position),
    /// A mnemonic where a label was expected.
    Reserved(Position),
    /// A name that starts neither an instruction nor a label declaration.
    Label,
}

/// The special operands of the load instruction.
#[derive(Debug, Clone, Copy, PartialEq, Eq, Structural)]
pub enum Tag {
    I,
    K,
    DT,
    ST,
    F,
    B,
    Plain,
}

/// What the instruction scanners see of a token.
#[derive(Debug, Clone, Copy, PartialEq, Eq, Structural)]
pub enum Sym {
    /// A name: the register it stands for (16 for none), its special
    /// meaning, and whether it is a mnemonic.
    Name { register: u16, tag: Tag, reserved: bool },
    Number(u16),
    Coma,
    Open,
    Close,
    Other,
}

pub open spec fn tag_of(name: Seq<char>) -> Tag {
    if same_word(name, "I"@) {
        Tag::I
    } else if same_word(name, "K"@) {
        Tag::K
    } else if same_word(name, "DT"@) {
        Tag::DT
    } else if same_word(name, "ST"@) {
        Tag::ST
    } else if same_word(name, "F"@) {
        Tag::F
    } else if same_word(name, "B"@) {
        Tag::B
    } else {
        Tag::Plain
    }
}

pub open spec fn sym_of(kind: Kind) -> Sym {
    match kind {
        Kind::Name(name) => Sym::Name {
            register: register_index(name),
            tag: tag_of(name),
            reserved: mnemonic_name(name),
        },
        Kind::Number(value) => Sym::Number(value),
        Kind::Coma => Sym::Coma,
        Kind::OpenSquareBracket => Sym::Open,
        Kind::ClosingSquareBracket => Sym::Close,
        _ => Sym::Other,
    }
}

fn classify(token: &TokenType) -> (out: Sym)
    ensures
        out == sym_of(token@),
{
    match token {
        TokenType::Name(name) => {
            let chars = chars_of(name.as_str());
            let tag = if same_chars(&chars, "I") {
                Tag::I
            } else if same_chars(&chars, "K") {
                Tag::K
            } else if same_chars(&chars, "DT") {
                Tag::DT
            } else if same_chars(&chars, "ST") {
                Tag::ST
            } else if same_chars(&chars, "F") {
                Tag::F
            } else if same_chars(&chars, "B") {
                Tag::B
            } else {
                Tag::Plain
            };
            Sym::Name { register: register_of(&chars), tag, reserved: reserved(&chars) }
        },
        TokenType::Number(value) => Sym::Number(*value),
        TokenType::Coma => Sym::Coma,
        TokenType::OpenSquareBracket => Sym::Open,
        TokenType::ClosingSquareBracket => Sym::Close,
        _ => Sym::Other,
    }
}

/// The instruction that a scanner is reading.
#[derive(Debug, Clone, Copy, PartialEq, Eq, Structural)]
pub enum Rule {
    /// `JP label` or `JP V0, label`.
    Jp,
    /// `SE` and `SNE`: the word for an immediate and the word for a register.
    Skip { immediate: u16, register: u16 },
    /// `ADD` in its three forms.
    Add,
    /// An instruction with one register: `SKP`, `SKNP`, `SHR`, `SHL`.
    One { code: u16 },
    /// An instruction with two registers: `OR`, `AND`, `XOR`, `SUB`, `SUBN`.
    Two { code: u16 },
    Drw,
    Rnd,
    Ld,
}

/// What a scanner remembers between tokens.
#[derive(Debug, Clone, Copy, PartialEq, Eq, Structural)]
pub struct Scratch {
    pub step: u8,
    pub vx: u16,
    pub vy: u16,
    /// For `ADD`: whether the first operand was `I`. For `LD`: which form
    /// the first operand chose (0 none yet, 1 register, 2 timer or glyph,
    /// 3 index, 4 memory).
    pub mode: u8,
    /// For `LD` with a timer or glyph operand: the instruction word.
    pub code: u16,
}

/// What a scanner makes of one token.
#[derive(Debug, Clone, Copy, PartialEq, Eq, Structural)]
pub enum Verdict {
    /// Read on.
    Go(Scratch),
    /// The instruction is complete.
    Emit(u16),
    /// The instruction is complete but for the address of the label that
    /// the token names.
    Jump(u16),
}

pub open spec fn fresh() -> Scratch {
    Scratch { step: 0, vx: 0, vy: 0, mode: 0, code: 0 }
}

pub open spec fn load_register(s: Scratch, sym: Sym) -> Verdict {
    match sym {
        Sym::Name { register, tag, reserved } => {
            if register < 16 && s.step == 1 {
                Verdict::Emit(0x8000 | (s.vx << 8) | (register << 4))
            } else if tag == Tag::K && s.step == 1 {
                Verdict::Emit(0xf00a | (s.vx << 8))
            } else if tag == Tag::DT && s.step == 1 {
                Verdict::Emit(0xf007 | (s.vx << 8))
            } else if tag == Tag::I && s.step == 2 {
                Verdict::Go(Scratch { step: 3, ..s })
            } else {
                Verdict::Go(s)
            }
        },
        Sym::Coma => Verdict::Go(if s.step == 0 { Scratch { step: 1, ..s } } else { s }),
        Sym::Number(value) => if s.step == 1 {
            Verdict::Emit(0x6000 | (s.vx << 8) | value)
        } else {
            Verdict::Go(s)
        },
        Sym::Open => Verdict::Go(if s.step == 1 { Scratch { step: 2, ..s } } else { s }),
        Sym::Close => if s.step == 3 {
            Verdict::Emit(0xf065 | (s.vx << 8))
        } else {
            Verdict::Go(s)
        },
        Sym::Other => Verdict::Go(s),
    }
}

pub open spec fn load_first(s: Scratch, sym: Sym) -> Verdict {
    match sym {
        Sym::Name { register, tag, reserved } => {
            if register < 16 {
                Verdict::Go(Scratch { vx: register, mode: 1, ..s })
            } else if tag == Tag::DT {
                Verdict::Go(Scratch { code: 0xf015, mode: 2, ..s })
            } else if tag == Tag::ST {
                Verdict::Go(Scratch { code: 0xf018, mode: 2, ..s })
            } else if tag == Tag::F {
                Verdict::Go(Scratch { code: 0xf029, mode: 2, ..s })
            } else if tag == Tag::B {
                Verdict::Go(Scratch { code: 0xf033, mode: 2, ..s })
            } else if tag == Tag::I {
                Verdict::Go(Scratch { mode: 3, ..s })
            } else {
                Verdict::Go(s)
            }
        },
        Sym::Open => Verdict::Go(Scratch { mode: 4, ..s }),
        _ => Verdict::Go(s),
    }
}

pub open spec fn load_rest(s: Scratch, sym: Sym) -> Verdict {
    if s.mode == 2 {
        match sym {
            Sym::Name { register, tag, reserved } => if s.step == 1 && register < 16 {
                Verdict::Emit(s.code | (register << 8))
            } else {
                Verdict::Go(s)
            },
            Sym::Coma => Verdict::Go(if s.step == 0 { Scratch { step: 1, ..s } } else { s }),
            _ => Verdict::Go(s),
        }
    } else if s.mode == 3 {
        match sym {
            Sym::Coma => Verdict::Go(if s.step == 0 { Scratch { step: 1, ..s } } else { s }),
            Sym::Number(value) => if s.step == 1 {
                Verdict::Emit(0xa000 | value)
            } else {
                Verdict::Go(s)
            },
            Sym::Name { register, tag, reserved } => if s.step == 1 {
                Verdict::Jump(0xa000)
            } else {
                Verdict::Go(s)
            },
            _ => Verdict::Go(s),
        }
    } else {
        match sym {
            Sym::Name { register, tag, reserved } => {
                if s.step == 0 && tag == Tag::I {
                    Verdict::Go(Scratch { step: 1, ..s })
                } else if s.step == 3 && register < 16 {
                    Verdict::Emit(0xf055 | (register << 8))
                } else {
                    Verdict::Go(s)
                }
            },
            Sym::Close => Verdict::Go(if s.step == 1 { Scratch { step: 2, ..s } } else { s }),
            Sym::Coma => Verdict::Go(if s.step == 2 { Scratch { step: 3, ..s } } else { s }),
            _ => Verdict::Go(s),
        }
    }
}

/// What the scanner of `rule` makes of the token `sym` in the state `s`.
pub open spec fn transition(rule: Rule, s: Scratch, sym: Sym) -> Verdict {
    match rule {
        Rule::Jp => match sym {
            Sym::Name { register, tag, reserved } => {
                if s.step == 0 && register == 0 {
                    Verdict::Go(Scratch { step: 1, ..s })
                } else if !reserved {
                    Verdict::Jump(if s.step == 0 { 0x1000u16 } else { 0xb000u16 })
                } else {
                    Verdict::Go(s)
                }
            },
            _ => Verdict::Go(s),
        },
        Rule::Skip { immediate, register: word } => match sym {
            Sym::Name { register, tag, reserved } => {
                if s.step == 0 && register < 16 {
                    Verdict::Go(Scratch { vx: register, step: 1, ..s })
                } else if s.step == 2 && register < 16 {
                    Verdict::Emit(word | (s.vx << 8) | (register << 4))
                } else {
                    Verdict::Go(s)
                }
            },
            Sym::Coma => Verdict::Go(if s.step == 1 { Scratch { step: 2, ..s } } else { s }),
            Sym::Number(value) => if s.step == 2 {
                Verdict::Emit(immediate | (s.vx << 8) | value)
            } else {
                Verdict::Go(s)
            },
            _ => Verdict::Go(s),
        },
        Rule::Add => match sym {
            Sym::Name { register, tag, reserved } => {
                if register < 16 && s.step == 0 {
                    Verdict::Go(Scratch { vx: register, step: 1, ..s })
                } else if register < 16 && s.step == 2 {
                    if s.mode == 1 {
                        Verdict::Emit(0xf01e | (register << 8))
                    } else {
                        Verdict::Emit(0x8004 | (s.vx << 8) | (register << 4))
                    }
                } else if s.step == 0 && tag == Tag::I {
                    Verdict::Go(Scratch { step: 1, mode: 1, ..s })
                } else {
                    Verdict::Go(s)
                }
            },
            Sym::Coma => Verdict::Go(if s.step == 1 { Scratch { step: 2, ..s } } else { s }),
            Sym::Number(value) => if s.step == 2 && s.mode != 1 {
                Verdict::Emit(0x7000 | (s.vx << 8) | value)
            } else {
                Verdict::Go(s)
            },
            _ => Verdict::Go(s),
        },
        Rule::One { code } => match sym {
            Sym::Name { register, tag, reserved } => if register < 16 {
                Verdict::Emit(code | (register << 8))
            } else {
                Verdict::Go(s)
            },
            _ => Verdict::Go(s),
        },
        Rule::Two { code } => match sym {
            Sym::Name { register, tag, reserved } => {
                if s.step == 0 && register < 16 {
                    Verdict::Go(Scratch { vx: register, step: 1, ..s })
                } else if s.step == 2 && register < 16 {
                    Verdict::Emit(code | (s.vx << 8) | (register << 4))
                } else {
                    Verdict::Go(s)
                }
            },
            Sym::Coma => Verdict::Go(if s.step == 1 { Scratch { step: 2, ..s } } else { s }),
            _ => Verdict::Go(s),
        },
        Rule::Drw => match sym {
            Sym::Name { register, tag, reserved } => {
                if s.step == 0 && register < 16 {
                    Verdict::Go(Scratch { vx: register, step: 1, ..s })
                } else if s.step == 2 && register < 16 {
                    Verdict::Go(Scratch { vy: register, step: 3, ..s })
                } else {
                    Verdict::Go(s)
                }
            },
            Sym::Coma => Verdict::Go(
                if s.step == 1 {
                    Scratch { step: 2, ..s }
                } else if s.step == 3 {
                    Scratch { step: 4, ..s }
                } else {
                    s
                },
            ),
            Sym::Number(value) => if s.step == 4 {
                Verdict::Emit(0xd000 | (s.vx << 8) | (s.vy << 4) | value)
            } else {
                Verdict::Go(s)
            },
            _ => Verdict::Go(s),
        },
        Rule::Rnd => match sym {
            Sym::Name { register, tag, reserved } => if s.step == 0 && register < 16 {
                Verdict::Go(Scratch { vx: register, step: 1, ..s })
            } else {
                Verdict::Go(s)
            },
            Sym::Coma => Verdict::Go(if s.step == 1 { Scratch { step: 2, ..s } } else { s }),
            Sym::Number(value) => if s.step == 2 {
                Verdict::Emit(0xc000 | (s.vx << 8) | value)
            } else {
                Verdict::Go(s)
            },
            _ => Verdict::Go(s),
        },
        Rule::Ld => if s.mode == 0 {
            load_first(s, sym)
        } else if s.mode == 1 {
            load_register(s, sym)
        } else {
            load_rest(s, sym)
        },
    }
}

fn step_load_register(s: Scratch, sym: Sym) -> (out: Verdict)
    ensures
        out == load_register(s, sym),
{
    match sym {
        Sym::Name { register, tag, reserved } => {
            if register < 16 && s.step == 1 {
                Verdict::Emit(0x8000 | (s.vx << 8) | (register << 4))
            } else if tag == Tag::K && s.step == 1 {
                Verdict::Emit(0xf00a | (s.vx << 8))
            } else if tag == Tag::DT && s.step == 1 {
                Verdict::Emit(0xf007 | (s.vx << 8))
            } else if tag == Tag::I && s.step == 2 {
                Verdict::Go(Scratch { step: 3, ..s })
            } else {
                Verdict::Go(s)
            }
        },
        Sym::Coma => Verdict::Go(if s.step == 0 { Scratch { step: 1, ..s } } else { s }),
        Sym::Number(value) => if s.step == 1 {
            Verdict::Emit(0x6000 | (s.vx << 8) | value)
        } else {
            Verdict::Go(s)
        },
        Sym::Open => Verdict::Go(if s.step == 1 { Scratch { step: 2, ..s } } else { s }),
        Sym::Close => if s.step == 3 {
            Verdict::Emit(0xf065 | (s.vx << 8))
        } else {
            Verdict::Go(s)
        },
        Sym::Other => Verdict::Go(s),
    }
}

fn step_load_first(s: Scratch, sym: Sym) -> (out: Verdict)
    ensures
        out == load_first(s, sym),
{
    match sym {
        Sym::Name { register, tag, reserved } => {
            if register < 16 {
                Verdict::Go(Scratch { vx: register, mode: 1, ..s })
            } else if tag == Tag::DT {
                Verdict::Go(Scratch { code: 0xf015, mode: 2, ..s })
            } else if tag == Tag::ST {
                Verdict::Go(Scratch { code: 0xf018, mode: 2, ..s })
            } else if tag == Tag::F {
                Verdict::Go(Scratch { code: 0xf029, mode: 2, ..s })
            } else if tag == Tag::B {
                Verdict::Go(Scratch { code: 0xf033, mode: 2, ..s })
            } else if tag == Tag::I {
                Verdict::Go(Scratch { mode: 3, ..s })
            } else {
                Verdict::Go(s)
            }
        },
        Sym::Open => Verdict::Go(Scratch { mode: 4, ..s }),
        _ => Verdict::Go(s),
    }
}

fn step_load_rest(s: Scratch, sym: Sym) -> (out: Verdict)
    ensures
        out == load_rest(s, sym),
{
    if s.mode == 2 {
        match sym {
            Sym::Name { register, tag, reserved } => if s.step == 1 && register < 16 {
                Verdict::Emit(s.code | (register << 8))
            } else {
                Verdict::Go(s)
            },
            Sym::Coma => Verdict::Go(if s.step == 0 { Scratch { step: 1, ..s } } else { s }),
            _ => Verdict::Go(s),
        }
    } else if s.mode == 3 {
        match sym {
            Sym::Coma => Verdict::Go(if s.step == 0 { Scratch { step: 1, ..s } } else { s }),
            Sym::Number(value) => if s.step == 1 {
                Verdict::Emit(0xa000 | value)
            } else {
                Verdict::Go(s)
            },
            Sym::Name { register, tag, reserved } => if s.step == 1 {
                Verdict::Jump(0xa000)
            } else {
                Verdict::Go(s)
            },
            _ => Verdict::Go(s),
        }
    } else {
        match sym {
            Sym::Name { register, tag, reserved } => {
                if s.step == 0 && tag == Tag::I {
                    Verdict::Go(Scratch { step: 1, ..s })
                } else if s.step == 3 && register < 16 {
                    Verdict::Emit(0xf055 | (register << 8))
                } else {
                    Verdict::Go(s)
                }
            },
            Sym::Close => Verdict::Go(if s.step == 1 { Scratch { step: 2, ..s } } else { s }),
            Sym::Coma => Verdict::Go(if s.step == 2 { Scratch { step: 3, ..s } } else { s }),
            _ => Verdict::Go(s),
        }
    }
}

fn step_transition(rule: Rule, s: Scratch, sym: Sym) -> (out: Verdict)
    ensures
        out == transition(rule, s, sym),
{
    match rule {
        Rule::Jp => match sym {
            Sym::Name { register, tag, reserved } => {
                if s.step == 0 && register == 0 {
                    Verdict::Go(Scratch { step: 1, ..s })
                } else if !reserved {
                    Verdict::Jump(if s.step == 0 { 0x1000u16 } else { 0xb000u16 })
                } else {
                    Verdict::Go(s)
                }
            },
            _ => Verdict::Go(s),
        },
        Rule::Skip { immediate, register: word } => match sym {
            Sym::Name { register, tag, reserved } => {
                if s.step == 0 && register < 16 {
                    Verdict::Go(Scratch { vx: register, step: 1, ..s })
                } else if s.step == 2 && register < 16 {
                    Verdict::Emit(word | (s.vx << 8) | (register << 4))
                } else {
                    Verdict::Go(s)
                }
            },
            Sym::Coma => Verdict::Go(if s.step == 1 { Scratch { step: 2, ..s } } else { s }),
            Sym::Number(value) => if s.step == 2 {
                Verdict::Emit(immediate | (s.vx << 8) | value)
            } else {
                Verdict::Go(s)
            },
            _ => Verdict::Go(s),
        },
        Rule::Add => match sym {
            Sym::Name { register, tag, reserved } => {
                if register < 16 && s.step == 0 {
                    Verdict::Go(Scratch { vx: register, step: 1, ..s })
                } else if register < 16 && s.step == 2 {
                    if s.mode == 1 {
                        Verdict::Emit(0xf01e | (register << 8))
                    } else {
                        Verdict::Emit(0x8004 | (s.vx << 8) | (register << 4))
                    }
                } else if s.step == 0 && tag == Tag::I {
                    Verdict::Go(Scratch { step: 1, mode: 1, ..s })
                } else {
                    Verdict::Go(s)
                }
            },
            Sym::Coma => Verdict::Go(if s.step == 1 { Scratch { step: 2, ..s } } else { s }),
            Sym::Number(value) => if s.step == 2 && s.mode != 1 {
                Verdict::Emit(0x7000 | (s.vx << 8) | value)
            } else {
                Verdict::Go(s)
            },
            _ => Verdict::Go(s),
        },
        Rule::One { code } => match sym {
            Sym::Name { register, tag, reserved } => if register < 16 {
                Verdict::Emit(code | (register << 8))
            } else {
                Verdict::Go(s)
            },
            _ => Verdict::Go(s),
        },
        Rule::Two { code } => match sym {
            Sym::Name { register, tag, reserved } => {
                if s.step == 0 && register < 16 {
                    Verdict::Go(Scratch { vx: register, step: 1, ..s })
                } else if s.step == 2 && register < 16 {
                    Verdict::Emit(code | (s.vx << 8) | (register << 4))
                } else {
                    Verdict::Go(s)
                }
            },
            Sym::Coma => Verdict::Go(if s.step == 1 { Scratch { step: 2, ..s } } else { s }),
            _ => Verdict::Go(s),
        },
        Rule::Drw => match sym {
            Sym::Name { register, tag, reserved } => {
                if s.step == 0 && register < 16 {
                    Verdict::Go(Scratch { vx: register, step: 1, ..s })
                } else if s.step == 2 && register < 16 {
                    Verdict::Go(Scratch { vy: register, step: 3, ..s })
                } else {
                    Verdict::Go(s)
                }
            },
            Sym::Coma => Verdict::Go(
                if s.step == 1 {
                    Scratch { step: 2, ..s }
                } else if s.step == 3 {
                    Scratch { step: 4, ..s }
                } else {
                    s
                },
            ),
            Sym::Number(value) => if s.step == 4 {
                Verdict::Emit(0xd000 | (s.vx << 8) | (s.vy << 4) | value)
            } else {
                Verdict::Go(s)
            },
            _ => Verdict::Go(s),
        },
        Rule::Rnd => match sym {
            Sym::Name { register, tag, reserved } => if s.step == 0 && register < 16 {
                Verdict::Go(Scratch { vx: register, step: 1, ..s })
            } else {
                Verdict::Go(s)
            },
            Sym::Coma => Verdict::Go(if s.step == 1 { Scratch { step: 2, ..s } } else { s }),
            Sym::Number(value) => if s.step == 2 {
                Verdict::Emit(0xc000 | (s.vx << 8) | value)
            } else {
                Verdict::Go(s)
            },
            _ => Verdict::Go(s),
        },
        Rule::Ld => if s.mode == 0 {
            step_load_first(s, sym)
        } else if s.mode == 1 {
            step_load_register(s, sym)
        } else {
            step_load_rest(s, sym)
        },
    }
}


/// The parser as plain values: where its lexer stands and the token it
/// looks at.
pub struct State {
    pub cursor: Cursor,
    pub current: Kind,
    pub position: Position,
}

/// A state after one request for a token, with what the request gave.
pub struct Pulled {
    pub state: State,
    pub result: Result<bool, ParseError>,
}

/// A state after one item was read, with the item.
pub struct Parsed {
    pub state: State,
    pub result: Result<Node, ParseError>,
}

/// One request for a token. With a token, it becomes the current one. At
/// the end of the input the current token becomes the one that stands for
/// none. An unclosed text is an error and leaves the current token alone.
pub open spec fn pull(data: Seq<char>, s: State) -> Pulled {
    let ready = scan(data, s.cursor);
    if ready.index < data.len() {
        let lexed = lex(data, ready);
        match lexed.result {
            Ok(token) => Pulled {
                state: State { cursor: lexed.cursor, current: token.kind, position: token.position },
                result: Ok(true),
            },
            Err(error) => Pulled {
                state: State { cursor: lexed.cursor, ..s },
                result: Err(ParseError::Unclosed(error)),
            },
        }
    } else {
        Pulled { state: State { cursor: ready, current: Kind::NoToken, ..s }, result: Ok(false) }
    }
}

/// The name that a name token holds; empty for any other token.
pub open spec fn name_of(kind: Kind) -> Seq<char> {
    match kind {
        Kind::Name(name) => name,
        _ => Seq::empty(),
    }
}

/// The scanner of `rule`: tokens are requested one by one and handed to
/// the rule until it completes an instruction. An error of the lexer ends
/// the scan with that error. If the input ends first, the result is the
/// end marker.
pub open spec fn drive(data: Seq<char>, s: State, rule: Rule, scratch: Scratch) -> Parsed
    decreases data.len() - s.cursor.index,
{
    let pulled = pull(data, s);
    match pulled.result {
        Err(error) => Parsed { state: pulled.state, result: Err(error) },
        Ok(more) => if !more {
            Parsed { state: pulled.state, result: Ok(Node::End) }
        } else {
            match transition(rule, scratch, sym_of(pulled.state.current)) {
                Verdict::Emit(code) => Parsed { state: pulled.state, result: Ok(Node::Opcode(code)) },
                Verdict::Jump(nemode) => Parsed {
                    state: pulled.state,
                    result: Ok(Node::Jump { nemode, address: name_of(pulled.state.current) }),
                },
                Verdict::Go(next) => if s.cursor.index < pulled.state.cursor.index <= data.len() {
                    drive(data, pulled.state, rule, next)
                } else {
                    Parsed { state: pulled.state, result: Ok(Node::End) }
                },
            }
        },
    }
}

/// `SYS label` and `CALL label`: the next token must be a name that is no
/// mnemonic. Any other kind of token gives the end marker.
pub open spec fn sys_call(data: Seq<char>, s: State, nemode: u16) -> Parsed {
    let pulled = pull(data, s);
    match pulled.result {
        Err(error) => Parsed { state: pulled.state, result: Err(error) },
        Ok(more) => if !more {
            Parsed { state: pulled.state, result: Err(ParseError::UnexpectedEnd(pulled.state.position)) }
        } else {
            match pulled.state.current {
                Kind::Name(name) => if !mnemonic_name(name) {
                    Parsed { state: pulled.state, result: Ok(Node::Jump { nemode, address: name }) }
                } else {
                    Parsed { state: pulled.state, result: Err(ParseError::Reserved(pulled.state.position)) }
                },
                _ => Parsed { state: pulled.state, result: Ok(Node::End) },
            }
        },
    }
}

/// Whether `name` is one of the three content types of a label.
pub open spec fn subtype_name(name: Seq<char>) -> bool {
    name == "sprite"@ || name == "commands"@ || name == "text"@
}

/// The rest of a label declaration, from the current token on: a dot, a
/// content type and a colon, or for the label `start` a colon alone.
/// `step` counts what was seen: 0 nothing, 1 the dot, 2 the content type.
pub open spec fn label_tail(data: Seq<char>, s: State, name: Seq<char>, step: int, subtype: Seq<char>) -> Parsed
    decreases data.len() - s.cursor.index,
{
    match s.current {
        Kind::NoToken => Parsed { state: s, result: Err(ParseError::Label) },
        Kind::Colon if step == 2 => Parsed { state: s, result: Ok(Node::Subroutine { subtype, name }) },
        Kind::Colon if step == 0 && same_word(name, "start"@) => Parsed {
            state: s,
            result: Ok(Node::Subroutine { subtype: "commands"@, name }),
        },
        _ => {
            let seen = match s.current {
                Kind::Name(value) if step == 1 && subtype_name(value) => (2int, value),
                Kind::Dot if step == 0 => (1int, subtype),
                _ => (step, subtype),
            };
            let pulled = pull(data, s);
            match pulled.result {
                Err(error) => Parsed { state: pulled.state, result: Err(error) },
                Ok(more) => if !more {
                    Parsed { state: pulled.state, result: Err(ParseError::UnexpectedEnd(pulled.state.position)) }
                } else if s.cursor.index < pulled.state.cursor.index <= data.len() {
                    label_tail(data, pulled.state, name, seen.0, seen.1)
                } else {
                    Parsed { state: pulled.state, result: Err(ParseError::Label) }
                },
            }
        },
    }
}

/// A label declaration whose name was the current token.
pub open spec fn label(data: Seq<char>, s: State, name: Seq<char>) -> Parsed {
    let pulled = pull(data, s);
    match pulled.result {
        Err(error) => Parsed { state: pulled.state, result: Err(error) },
        Ok(more) => if !more {
            Parsed { state: pulled.state, result: Err(ParseError::Label) }
        } else {
            label_tail(data, pulled.state, name, 0, Seq::empty())
        },
    }
}

/// Sprite data from the current token on: numbers are collected up to a
/// semicolon or the token that stands for none; other tokens separate
/// them. The input may not end before that.
pub open spec fn sprite(data: Seq<char>, s: State, bytes: Seq<u16>) -> Parsed
    decreases data.len() - s.cursor.index,
{
    match s.current {
        Kind::NoToken => Parsed { state: s, result: Ok(Node::Sprite(bytes)) },
        Kind::SemiColon => Parsed { state: s, result: Ok(Node::Sprite(bytes)) },
        _ => {
            let more_bytes = match s.current {
                Kind::Number(value) => bytes.push(value),
                _ => bytes,
            };
            let pulled = pull(data, s);
            match pulled.result {
                Err(error) => Parsed { state: pulled.state, result: Err(error) },
                Ok(more) => if !more {
                    Parsed { state: pulled.state, result: Err(ParseError::UnexpectedEnd(pulled.state.position)) }
                } else if s.cursor.index < pulled.state.cursor.index <= data.len() {
                    sprite(data, pulled.state, more_bytes)
                } else {
                    Parsed { state: pulled.state, result: Ok(Node::Sprite(more_bytes)) }
                },
            }
        },
    }
}

/// The item that starts at the current token. A name is a mnemonic, in
/// either case, or else the name of a label that is being declared; a
/// number starts sprite data; the token that stands for none is the end.
pub open spec fn item(data: Seq<char>, s: State) -> Parsed {
    match s.current {
        Kind::NoToken => Parsed { state: s, result: Ok(Node::End) },
        Kind::Name(name) => {
            if same_word(name, "CLR"@) {
                Parsed { state: s, result: Ok(Node::Opcode(0x00e0)) }
            } else if same_word(name, "RET"@) {
                Parsed { state: s, result: Ok(Node::Opcode(0x00ee)) }
            } else if same_word(name, "SYS"@) {
                sys_call(data, s, 0x0000)
            } else if same_word(name, "JP"@) {
                drive(data, s, Rule::Jp, fresh())
            } else if same_word(name, "CALL"@) {
                sys_call(data, s, 0x2000)
            } else if same_word(name, "SE"@) {
                drive(data, s, Rule::Skip { immediate: 0x3000, register: 0x5000 }, fresh())
            } else if same_word(name, "SNE"@) {
                drive(data, s, Rule::Skip { immediate: 0x4000, register: 0x9000 }, fresh())
            } else if same_word(name, "ADD"@) {
                drive(data, s, Rule::Add, fresh())
            } else if same_word(name, "SKP"@) {
                drive(data, s, Rule::One { code: 0xe00e }, fresh())
            } else if same_word(name, "SKNP"@) {
                drive(data, s, Rule::One { code: 0xe001 }, fresh())
            } else if same_word(name, "SHR"@) {
                drive(data, s, Rule::One { code: 0x8006 }, fresh())
            } else if same_word(name, "SHL"@) {
                drive(data, s, Rule::One { code: 0x800e }, fresh())
            } else if same_word(name, "OR"@) {
                drive(data, s, Rule::Two { code: 0x8001 }, fresh())
            } else if same_word(name, "AND"@) {
                drive(data, s, Rule::Two { code: 0x8002 }, fresh())
            } else if same_word(name, "XOR"@) {
                drive(data, s, Rule::Two { code: 0x8003 }, fresh())
            } else if same_word(name, "SUB"@) {
                drive(data, s, Rule::Two { code: 0x8005 }, fresh())
            } else if same_word(name, "SUBN"@) {
                drive(data, s, Rule::Two { code: 0x8007 }, fresh())
            } else if same_word(name, "RND"@) {
                drive(data, s, Rule::Rnd, fresh())
            } else if same_word(name, "DRW"@) {
                drive(data, s, Rule::Drw, fresh())
            } else if same_word(name, "LD"@) {
                drive(data, s, Rule::Ld, fresh())
            } else {
                label(data, s, name)
            }
        },
        Kind::Number(value) => sprite(data, s, Seq::empty()),
        _ => Parsed { state: s, result: Err(ParseError::UnexpectedToken(s.position)) },
    }
}

/// Whether `out` is the result `expected`, item by item.
pub open spec fn gives(out: Result<Expression, ParseError>, expected: Result<Node, ParseError>) -> bool {
    match out {
        Ok(expression) => expected == Ok::<Node, ParseError>(expression@),
        Err(error) => expected == Err::<Node, ParseError>(error),
    }
}

pub struct Parser {
    pub lexer: Lexer,
    pub current: TokenType,
    pub position: Position,
}

impl View for Parser {
    type V = State;

    open spec fn view(&self) -> State {
        State { cursor: self.lexer.cursor(), current: self.current@, position: self.position }
    }
}

impl Parser {
    /// The input.
    pub open spec fn text(&self) -> Seq<char> {
        self.lexer.text()
    }

    pub open spec fn well_formed(&self) -> bool {
        self.lexer.well_formed()
    }

    /// A parser at the start of `data`, with no current token yet.
    pub fn new(data: &str) -> (out: Self)
        ensures
            out.well_formed(),
            out.text() == data@,
            out@.current == Kind::NoToken,
            out@.position == (Position { column: 0, line: 0, width: 0 }),
            out@.cursor == (Cursor {
                index: 0,
                current: if data@.len() > 0 { data@[0] } else { ' ' },
                to_newline: false,
                column: 0,
                row: 0,
            }),
    {
        let token = Token::none();
        Parser { lexer: Lexer::new(data), current: token.tokentype(), position: token.position() }
    }

    /// Whether the current token is a semicolon.
    pub fn at_semicolon(&self) -> (out: bool)
        ensures
            out == (self@.current == Kind::SemiColon),
    {
        match &self.current {
            TokenType::SemiColon => true,
            _ => false,
        }
    }

    /// Makes the next token of the input the current one. `Ok(false)` says
    /// that the input is at its end.
    pub fn next_token(&mut self) -> (out: Result<bool, ParseError>)
        requires
            old(self).well_formed(),
        ensures
            final(self).well_formed(),
            final(self).text() == old(self).text(),
            final(self)@ == pull(old(self).text(), old(self)@).state,
            out == pull(old(self).text(), old(self)@).result,
            final(self)@.cursor.index >= old(self)@.cursor.index,
            out != Ok::<bool, ParseError>(false) ==> final(self)@.cursor.index > old(self)@.cursor.index,
    {
        if self.lexer.has_next() {
            match self.lexer.get_next_token() {
                Err(error) => {
                    return Err(ParseError::Unclosed(error));
                },
                Ok(token) => {
                    self.current = token.tokentype();
                    self.position = token.position();
                    return Ok(true);
                },
            }
        }
        self.current = TokenType::NoToken;
        Ok(false)
    }

    /// Reads the item that starts at the current token.
    pub fn get_next(&mut self) -> (out: Result<Expression, ParseError>)
        requires
            old(self).well_formed(),
        ensures
            final(self).well_formed(),
            final(self).text() == old(self).text(),
            final(self)@ == item(old(self).text(), old(self)@).state,
            gives(out, item(old(self).text(), old(self)@).result),
            final(self)@.cursor.index >= old(self)@.cursor.index,
    {
        let mut chars: Vec<char> = Vec::new();
        let mut kind: u8 = 0;
        match &self.current {
            TokenType::NoToken => {
                return Ok(Expression::End);
            },
            TokenType::Name(name) => {
                chars = chars_of(name.as_str());
                kind = 1;
            },
            TokenType::Number(_) => {
                kind = 2;
            },
            _ => {},
        }
        if kind == 2 {
            return self.init_sprite();
        }
        if kind == 0 {
            return Err(ParseError::UnexpectedToken(self.position));
        }
        if same_chars(&chars, "CLR") {
            Ok(Expression::Opcode(0x00e0))
        } else if same_chars(&chars, "RET") {
            Ok(Expression::Opcode(0x00ee))
        } else if same_chars(&chars, "SYS") {
            self.init_sys_call(0x0000)
        } else if same_chars(&chars, "JP") {
            self.init_jp()
        } else if same_chars(&chars, "CALL") {
            self.init_sys_call(0x2000)
        } else if same_chars(&chars, "SE") {
            self.init_se_sne([0x3000, 0x5000])
        } else if same_chars(&chars, "SNE") {
            self.init_se_sne([0x4000, 0x9000])
        } else if same_chars(&chars, "ADD") {
            self.init_add()
        } else if same_chars(&chars, "SKP") {
            self.init_skp_sknp_shr_shl(0xe00e)
        } else if same_chars(&chars, "SKNP") {
            self.init_skp_sknp_shr_shl(0xe001)
        } else if same_chars(&chars, "SHR") {
            self.init_skp_sknp_shr_shl(0x8006)
        } else if same_chars(&chars, "SHL") {
            self.init_skp_sknp_shr_shl(0x800e)
        } else if same_chars(&chars, "OR") {
            self.init_or_xor_sub_subn(0x8001)
        } else if same_chars(&chars, "AND") {
            self.init_or_xor_sub_subn(0x8002)
        } else if same_chars(&chars, "XOR") {
            self.init_or_xor_sub_subn(0x8003)
        } else if same_chars(&chars, "SUB") {
            self.init_or_xor_sub_subn(0x8005)
        } else if same_chars(&chars, "SUBN") {
            self.init_or_xor_sub_subn(0x8007)
        } else if same_chars(&chars, "RND") {
            self.init_rnd()
        } else if same_chars(&chars, "DRW") {
            self.init_drw()
        } else if same_chars(&chars, "LD") {
            self.init_load()
        } else {
            self.init_subroutine(&chars)
        }
    }

    /// The name that the current token holds; empty for a token that is no name.
    fn current_name(&self) -> (out: String)
        ensures
            out@ == name_of(self@.current),
    {
        match &self.current {
            TokenType::Name(name) => name.clone(),
            _ => String::new(),
        }
    }

    fn scan_rule(&mut self, rule: Rule) -> (out: Result<Expression, ParseError>)
        requires
            old(self).well_formed(),
        ensures
            final(self).well_formed(),
            final(self).text() == old(self).text(),
            final(self)@ == drive(old(self).text(), old(self)@, rule, fresh()).state,
            gives(out, drive(old(self).text(), old(self)@, rule, fresh()).result),
            final(self)@.cursor.index >= old(self)@.cursor.index,
    {
        let mut scratch = Scratch { step: 0, vx: 0, vy: 0, mode: 0, code: 0 };
        loop
            invariant
                self.well_formed(),
                self.text() == old(self).text(),
                self@.cursor.index >= old(self)@.cursor.index,
                drive(self.text(), self@, rule, scratch) == drive(old(self).text(), old(self)@, rule, fresh()),
            decreases self.text().len() - self@.cursor.index,
        {
            let ghost before = self@;
            match self.next_token() {
                Err(error) => {
                    return Err(error);
                },
                Ok(more) => {
                    if !more {
                        return Ok(Expression::End);
                    }
                    match step_transition(rule, scratch, classify(&self.current)) {
                        Verdict::Emit(code) => {
                            return Ok(Expression::Opcode(code));
                        },
                        Verdict::Jump(nemode) => {
                            return Ok(Expression::Jump { nemode, address: self.current_name() });
                        },
                        Verdict::Go(next) => {
                            scratch = next;
                        },
                    }
                },
            }
        }
    }

    fn init_sys_call(&mut self, nemode: u16) -> (out: Result<Expression, ParseError>)
        requires
            old(self).well_formed(),
        ensures
            final(self).well_formed(),
            final(self).text() == old(self).text(),
            final(self)@ == sys_call(old(self).text(), old(self)@, nemode).state,
            gives(out, sys_call(old(self).text(), old(self)@, nemode).result),
            final(self)@.cursor.index >= old(self)@.cursor.index,
    {
        match self.next_token() {
            Err(error) => Err(error),
            Ok(more) => {
                if !more {
                    return Err(ParseError::UnexpectedEnd(self.position));
                }
                match &self.current {
                    TokenType::Name(value) => {
                        if !is_nemonic(value.as_str()) {
                            Ok(Expression::Jump { nemode, address: value.clone() })
                        } else {
                            Err(ParseError::Reserved(self.position))
                        }
                    },
                    _ => Ok(Expression::End),
                }
            },
        }
    }

    fn init_jp(&mut self) -> (out: Result<Expression, ParseError>)
        requires
            old(self).well_formed(),
        ensures
            final(self).well_formed(),
            final(self).text() == old(self).text(),
            final(self)@ == drive(old(self).text(), old(self)@, Rule::Jp, fresh()).state,
            gives(out, drive(old(self).text(), old(self)@, Rule::Jp, fresh()).result),
            final(self)@.cursor.index >= old(self)@.cursor.index,
    {
        self.scan_rule(Rule::Jp)
    }

    fn init_se_sne(&mut self, opcodes: [u16; 2]) -> (out: Result<Expression, ParseError>)
        requires
            old(self).well_formed(),
        ensures
            final(self).well_formed(),
            final(self).text() == old(self).text(),
            final(self)@ == drive(
                old(self).text(),
                old(self)@,
                Rule::Skip { immediate: opcodes[0], register: opcodes[1] },
                fresh(),
            ).state,
            gives(
                out,
                drive(
                    old(self).text(),
                    old(self)@,
                    Rule::Skip { immediate: opcodes[0], register: opcodes[1] },
                    fresh(),
                ).result,
            ),
            final(self)@.cursor.index >= old(self)@.cursor.index,
    {
        self.scan_rule(Rule::Skip { immediate: opcodes[0], register: opcodes[1] })
    }

    fn init_add(&mut self) -> (out: Result<Expression, ParseError>)
        requires
            old(self).well_formed(),
        ensures
            final(self).well_formed(),
            final(self).text() == old(self).text(),
            final(self)@ == drive(old(self).text(), old(self)@, Rule::Add, fresh()).state,
            gives(out, drive(old(self).text(), old(self)@, Rule::Add, fresh()).result),
            final(self)@.cursor.index >= old(self)@.cursor.index,
    {
        self.scan_rule(Rule::Add)
    }

    fn init_skp_sknp_shr_shl(&mut self, opcode: u16) -> (out: Result<Expression, ParseError>)
        requires
            old(self).well_formed(),
        ensures
            final(self).well_formed(),
            final(self).text() == old(self).text(),
            final(self)@ == drive(old(self).text(), old(self)@, Rule::One { code: opcode }, fresh()).state,
            gives(out, drive(old(self).text(), old(self)@, Rule::One { code: opcode }, fresh()).result),
            final(self)@.cursor.index >= old(self)@.cursor.index,
    {
        self.scan_rule(Rule::One { code: opcode })
    }

    fn init_or_xor_sub_subn(&mut self, opcode: u16) -> (out: Result<Expression, ParseError>)
        requires
            old(self).well_formed(),
        ensures
            final(self).well_formed(),
            final(self).text() == old(self).text(),
            final(self)@ == drive(old(self).text(), old(self)@, Rule::Two { code: opcode }, fresh()).state,
            gives(out, drive(old(self).text(), old(self)@, Rule::Two { code: opcode }, fresh()).result),
            final(self)@.cursor.index >= old(self)@.cursor.index,
    {
        self.scan_rule(Rule::Two { code: opcode })
    }

    fn init_drw(&mut self) -> (out: Result<Expression, ParseError>)
        requires
            old(self).well_formed(),
        ensures
            final(self).well_formed(),
            final(self).text() == old(self).text(),
            final(self)@ == drive(old(self).text(), old(self)@, Rule::Drw, fresh()).state,
            gives(out, drive(old(self).text(), old(self)@, Rule::Drw, fresh()).result),
            final(self)@.cursor.index >= old(self)@.cursor.index,
    {
        self.scan_rule(Rule::Drw)
    }

    fn init_rnd(&mut self) -> (out: Result<Expression, ParseError>)
        requires
            old(self).well_formed(),
        ensures
            final(self).well_formed(),
            final(self).text() == old(self).text(),
            final(self)@ == drive(old(self).text(), old(self)@, Rule::Rnd, fresh()).state,
            gives(out, drive(old(self).text(), old(self)@, Rule::Rnd, fresh()).result),
            final(self)@.cursor.index >= old(self)@.cursor.index,
    {
        self.scan_rule(Rule::Rnd)
    }

    fn init_load(&mut self) -> (out: Result<Expression, ParseError>)
        requires
            old(self).well_formed(),
        ensures
            final(self).well_formed(),
            final(self).text() == old(self).text(),
            final(self)@ == drive(old(self).text(), old(self)@, Rule::Ld, fresh()).state,
            gives(out, drive(old(self).text(), old(self)@, Rule::Ld, fresh()).result),
            final(self)@.cursor.index >= old(self)@.cursor.index,
    {
        self.scan_rule(Rule::Ld)
    }

    fn init_sprite(&mut self) -> (out: Result<Expression, ParseError>)
        requires
            old(self).well_formed(),
        ensures
            final(self).well_formed(),
            final(self).text() == old(self).text(),
            final(self)@ == sprite(old(self).text(), old(self)@, Seq::empty()).state,
            gives(out, sprite(old(self).text(), old(self)@, Seq::empty()).result),
            final(self)@.cursor.index >= old(self)@.cursor.index,
    {
        let mut init: Vec<u16> = Vec::new();
        loop
            invariant
                self.well_formed(),
                self.text() == old(self).text(),
                self@.cursor.index >= old(self)@.cursor.index,
                sprite(self.text(), self@, init@) == sprite(old(self).text(), old(self)@, Seq::empty()),
            decreases self.text().len() - self@.cursor.index,
        {
            match &self.current {
                TokenType::NoToken => {
                    return Ok(Expression::Sprite(init));
                },
                TokenType::SemiColon => {
                    return Ok(Expression::Sprite(init));
                },
                TokenType::Number(value) => {
                    init.push(*value);
                },
                _ => {},
            }
            match self.next_token() {
                Err(error) => {
                    return Err(error);
                },
                Ok(more) => {
                    if !more {
                        return Err(ParseError::UnexpectedEnd(self.position));
                    }
                },
            }
        }
    }

    fn init_subroutine(&mut self, name: &Vec<char>) -> (out: Result<Expression, ParseError>)
        requires
            old(self).well_formed(),
        ensures
            final(self).well_formed(),
            final(self).text() == old(self).text(),
            final(self)@ == label(old(self).text(), old(self)@, name@).state,
            gives(out, label(old(self).text(), old(self)@, name@).result),
            final(self)@.cursor.index >= old(self)@.cursor.index,
    {
        match self.next_token() {
            Err(error) => {
                return Err(error);
            },
            Ok(more) => {
                if !more {
                    return Err(ParseError::Label);
                }
            },
        }
        let mut step: u8 = 0;
        let mut subtype: Vec<char> = Vec::new();
        loop
            invariant
                self.well_formed(),
                self.text() == old(self).text(),
                self@.cursor.index >= old(self)@.cursor.index,
                step <= 2,
                label_tail(self.text(), self@, name@, step as int, subtype@) == label(
                    old(self).text(),
                    old(self)@,
                    name@,
                ),
            decreases self.text().len() - self@.cursor.index,
        {
            match &self.current {
                TokenType::NoToken => {
                    return Err(ParseError::Label);
                },
                TokenType::Colon => {
                    if step == 2 {
                        return Ok(
                            Expression::Subroutine {
                                name: crate::text::string_of(name),
                                subtype: crate::text::string_of(&subtype),
                            },
                        );
                    } else if step == 0 && same_chars(name, "start") {
                        return Ok(
                            Expression::Subroutine {
                                name: crate::text::string_of(name),
                                subtype: String::from_str("commands"),
                            },
                        );
                    }
                },
                TokenType::Name(value) => {
                    let chars = chars_of(value.as_str());
                    if step == 1 && (equal_chars(&chars, "sprite") || equal_chars(&chars, "commands")
                        || equal_chars(&chars, "text")) {
                        subtype = chars;
                        step = 2;
                    }
                },
                TokenType::Dot => {
                    if step == 0 {
                        step = 1;
                    }
                },
                _ => {},
            }
            match self.next_token() {
                Err(error) => {
                    return Err(error);
                },
                Ok(more) => {
                    if !more {
                        return Err(ParseError::UnexpectedEnd(self.position));
                    }
                },
            }
        }
    }
}

} // verus!
