//! The instruction forms of assembler source, each with the word it is
//! read as: what the scanners of the parser make of `Vx, Vy`, `Vx, kk`
//! and the other operand lists.
use vstd::prelude::*;
use crate::assembler::parser::{
    State, Node, ParseError, Rule, Scratch, Verdict, Tag, pull, drive, sys_call, transition, sym_of, name_of,
    fresh, register_index, mnemonic_name, tag_of,
};
use crate::text::{same_word, upper, upper_text};
use vstd::string::*;
use crate::utils::lexer::{scan, lemma_scan_moves_on, lemma_lex_moves_on};
use crate::utils::token::Kind;

verus! {

/// The parser stands within the input or at its end.
pub open spec fn placed(data: Seq<char>, s: State) -> bool {
    0 <= s.cursor.index <= data.len()
}

/// The state after `n` requests for a token.
pub open spec fn after(data: Seq<char>, s: State, n: nat) -> State
    decreases n,
{
    if n == 0 {
        s
    } else {
        pull(data, after(data, s, (n - 1) as nat)).state
    }
}

/// The token `n` places behind the current one; 0 is the next token.
pub open spec fn token(data: Seq<char>, s: State, n: nat) -> Kind {
    after(data, s, n + 1).current
}

/// Whether the next `n` requests each give a token.
pub open spec fn has_tokens(data: Seq<char>, s: State, n: nat) -> bool
    decreases n,
{
    if n == 0 {
        true
    } else {
        has_tokens(data, s, (n - 1) as nat) && pull(data, after(data, s, (n - 1) as nat)).result == Ok::<
            bool,
            ParseError,
        >(true)
    }
}

/// The token is the name of register `x`: `V` and one hexadecimal digit.
pub open spec fn is_register(kind: Kind, x: u16) -> bool {
    kind matches Kind::Name(name) && register_index(name) == x && x < 16
}

/// The token is the name `word`, in either case.
pub open spec fn is_word(kind: Kind, word: Seq<char>) -> bool {
    kind matches Kind::Name(name) && same_word(name, word)
}

/// The token is the name `name`, which is no mnemonic.
pub open spec fn is_label(kind: Kind, name: Seq<char>) -> bool {
    kind == Kind::Name(name) && !mnemonic_name(name)
}

/// A request for a token moves forward only and stays within the input;
/// unless it finds the input at its end, it takes at least one character.
pub proof fn lemma_pull_moves_on(data: Seq<char>, s: State)
    requires
        placed(data, s),
    ensures
        placed(data, pull(data, s).state),
        s.cursor.index <= pull(data, s).state.cursor.index,
        pull(data, s).result != Ok::<bool, ParseError>(false) ==> s.cursor.index < pull(
            data,
            s,
        ).state.cursor.index,
{
    lemma_scan_moves_on(data, s.cursor);
    let ready = scan(data, s.cursor);
    if ready.index < data.len() {
        lemma_lex_moves_on(data, ready);
    }
}

/// One token of a scan: the scanner hands it to the rule, and either is
/// done or reads on from behind it.
pub proof fn lemma_one_token(data: Seq<char>, s: State, rule: Rule, scratch: Scratch)
    requires
        placed(data, s),
        pull(data, s).result == Ok::<bool, ParseError>(true),
    ensures
        placed(data, pull(data, s).state),
        match transition(rule, scratch, sym_of(pull(data, s).state.current)) {
            Verdict::Go(next) => drive(data, s, rule, scratch) == drive(data, pull(data, s).state, rule, next),
            Verdict::Emit(code) => drive(data, s, rule, scratch).result == Ok::<Node, ParseError>(
                Node::Opcode(code),
            ),
            Verdict::Jump(nemode) => drive(data, s, rule, scratch).result == Ok::<Node, ParseError>(
                Node::Jump { nemode, address: name_of(pull(data, s).state.current) },
            ),
        },
{
    lemma_pull_moves_on(data, s);
}

/// `Vx` alone, as in `SKP Vx`, `SKNP Vx`, `SHR Vx` and `SHL Vx`: the
/// register goes into bits 8 to 11 of the instruction's word.
pub proof fn form_one_register(data: Seq<char>, s: State, code: u16, x: u16)
    requires
        placed(data, s),
        has_tokens(data, s, 1),
        is_register(token(data, s, 0), x),
    ensures
        drive(data, s, Rule::One { code }, fresh()).result == Ok::<Node, ParseError>(
            Node::Opcode(code | (x << 8)),
        ),
{
    reveal_with_fuel(after, 3);
    reveal_with_fuel(has_tokens, 3);
    lemma_one_token(data, s, Rule::One { code }, fresh());
}

/// `Vx, Vy`, as in `OR`, `AND`, `XOR`, `SUB` and `SUBN`: the first register
/// goes into bits 8 to 11 of the word, the second into bits 4 to 7.
pub proof fn form_two_registers(data: Seq<char>, s: State, code: u16, x: u16, y: u16)
    requires
        placed(data, s),
        has_tokens(data, s, 3),
        is_register(token(data, s, 0), x),
        token(data, s, 1) == Kind::Coma,
        is_register(token(data, s, 2), y),
    ensures
        drive(data, s, Rule::Two { code }, fresh()).result == Ok::<Node, ParseError>(
            Node::Opcode(code | (x << 8) | (y << 4)),
        ),
{
    reveal_with_fuel(after, 4);
    reveal_with_fuel(has_tokens, 4);
    let rule = Rule::Two { code };
    let s1 = after(data, s, 1);
    let s2 = after(data, s, 2);
    lemma_one_token(data, s, rule, fresh());
    let c1 = Scratch { vx: x, step: 1, ..fresh() };
    lemma_one_token(data, s1, rule, c1);
    let c2 = Scratch { step: 2, ..c1 };
    lemma_one_token(data, s2, rule, c2);
}

/// Texts that are the same up to case have the same length and, place by
/// place, the same upper-case characters.
proof fn lemma_same_word(a: Seq<char>, b: Seq<char>)
    requires
        same_word(a, b),
    ensures
        a.len() == b.len(),
        forall|i: int| 0 <= i < a.len() ==> upper(a[i]) == upper(b[i]),
{
    assert(upper_text(a).len() == a.len());
    assert(upper_text(b).len() == b.len());
    assert forall|i: int| 0 <= i < a.len() implies upper(a[i]) == upper(b[i]) by {
        assert(upper_text(a)[i] == upper(a[i]));
        assert(upper_text(b)[i] == upper(b[i]));
    }
}

/// What the six special operands are made of.
proof fn lemma_words()
    ensures
        "I"@ == seq!['I'],
        "K"@ == seq!['K'],
        "F"@ == seq!['F'],
        "B"@ == seq!['B'],
        "DT"@ == seq!['D', 'T'],
        "ST"@ == seq!['S', 'T'],
{
    reveal_strlit("I");
    reveal_strlit("K");
    reveal_strlit("F");
    reveal_strlit("B");
    reveal_strlit("DT");
    reveal_strlit("ST");
    assert("I"@ =~= seq!['I']);
    assert("K"@ =~= seq!['K']);
    assert("F"@ =~= seq!['F']);
    assert("B"@ =~= seq!['B']);
    assert("DT"@ =~= seq!['D', 'T']);
    assert("ST"@ =~= seq!['S', 'T']);
}

/// A name that is one of the special operands, in either case, is no
/// register, and is that operand and no other.
pub proof fn lemma_special_word(name: Seq<char>, word: Seq<char>)
    requires
        same_word(name, word),
        word == "I"@ || word == "K"@ || word == "DT"@ || word == "ST"@ || word == "F"@ || word == "B"@,
    ensures
        register_index(name) == 16,
        word == "I"@ ==> tag_of(name) == Tag::I,
        word == "K"@ ==> tag_of(name) == Tag::K,
        word == "DT"@ ==> tag_of(name) == Tag::DT,
        word == "ST"@ ==> tag_of(name) == Tag::ST,
        word == "F"@ ==> tag_of(name) == Tag::F,
        word == "B"@ ==> tag_of(name) == Tag::B,
{
    lemma_words();
    lemma_same_word(name, word);
    if same_word(name, "I"@) {
        lemma_same_word(name, "I"@);
    }
    if same_word(name, "K"@) {
        lemma_same_word(name, "K"@);
    }
    if same_word(name, "DT"@) {
        lemma_same_word(name, "DT"@);
    }
    if same_word(name, "ST"@) {
        lemma_same_word(name, "ST"@);
    }
    if same_word(name, "F"@) {
        lemma_same_word(name, "F"@);
    }
    if same_word(name, "B"@) {
        lemma_same_word(name, "B"@);
    }
}

/// `Vx, kk` behind `SE` or `SNE`: the word for an immediate with the
/// register in bits 8 to 11 and the number in the low bits.
pub proof fn form_skip_immediate(data: Seq<char>, s: State, immediate: u16, register: u16, x: u16, kk: u16)
    requires
        placed(data, s),
        has_tokens(data, s, 3),
        is_register(token(data, s, 0), x),
        token(data, s, 1) == Kind::Coma,
        token(data, s, 2) == Kind::Number(kk),
    ensures
        drive(data, s, Rule::Skip { immediate, register }, fresh()).result == Ok::<Node, ParseError>(
            Node::Opcode(immediate | (x << 8) | kk),
        ),
{
    reveal_with_fuel(after, 5);
    reveal_with_fuel(has_tokens, 5);
    let rule = Rule::Skip { immediate, register };
    lemma_words();
    lemma_one_token(data, s, rule, fresh());
    lemma_one_token(data, after(data, s, 1), rule, Scratch { vx: x, step: 1, ..fresh() });
    lemma_one_token(data, after(data, s, 2), rule, Scratch { vx: x, step: 2, ..fresh() });
}

/// `Vx, Vy` behind `SE` or `SNE`: the word for a register with the first
/// register in bits 8 to 11 and the second in bits 4 to 7.
pub proof fn form_skip_register(data: Seq<char>, s: State, immediate: u16, register: u16, x: u16, y: u16)
    requires
        placed(data, s),
        has_tokens(data, s, 3),
        is_register(token(data, s, 0), x),
        token(data, s, 1) == Kind::Coma,
        is_register(token(data, s, 2), y),
    ensures
        drive(data, s, Rule::Skip { immediate, register }, fresh()).result == Ok::<Node, ParseError>(
            Node::Opcode(register | (x << 8) | (y << 4)),
        ),
{
    reveal_with_fuel(after, 5);
    reveal_with_fuel(has_tokens, 5);
    let rule = Rule::Skip { immediate, register };
    lemma_words();
    lemma_one_token(data, s, rule, fresh());
    lemma_one_token(data, after(data, s, 1), rule, Scratch { vx: x, step: 1, ..fresh() });
    lemma_one_token(data, after(data, s, 2), rule, Scratch { vx: x, step: 2, ..fresh() });
}

/// `ADD Vx, kk` is the word `7xkk`.
pub proof fn form_add_immediate(data: Seq<char>, s: State, x: u16, kk: u16)
    requires
        placed(data, s),
        has_tokens(data, s, 3),
        is_register(token(data, s, 0), x),
        token(data, s, 1) == Kind::Coma,
        token(data, s, 2) == Kind::Number(kk),
    ensures
        drive(data, s, Rule::Add, fresh()).result == Ok::<Node, ParseError>(
            Node::Opcode(0x7000 | (x << 8) | kk),
        ),
{
    reveal_with_fuel(after, 5);
    reveal_with_fuel(has_tokens, 5);
    let rule = Rule::Add;
    lemma_words();
    lemma_one_token(data, s, rule, fresh());
    lemma_one_token(data, after(data, s, 1), rule, Scratch { vx: x, step: 1, ..fresh() });
    lemma_one_token(data, after(data, s, 2), rule, Scratch { vx: x, step: 2, ..fresh() });
}

/// `ADD Vx, Vy` is the word `8xy4`.
pub proof fn form_add_registers(data: Seq<char>, s: State, x: u16, y: u16)
    requires
        placed(data, s),
        has_tokens(data, s, 3),
        is_register(token(data, s, 0), x),
        token(data, s, 1) == Kind::Coma,
        is_register(token(data, s, 2), y),
    ensures
        drive(data, s, Rule::Add, fresh()).result == Ok::<Node, ParseError>(
            Node::Opcode(0x8004 | (x << 8) | (y << 4)),
        ),
{
    reveal_with_fuel(after, 5);
    reveal_with_fuel(has_tokens, 5);
    let rule = Rule::Add;
    lemma_words();
    lemma_one_token(data, s, rule, fresh());
    lemma_one_token(data, after(data, s, 1), rule, Scratch { vx: x, step: 1, ..fresh() });
    lemma_one_token(data, after(data, s, 2), rule, Scratch { vx: x, step: 2, ..fresh() });
}

/// `ADD I, Vx` is the word `Fx1E`.
pub proof fn form_add_index(data: Seq<char>, s: State, x: u16)
    requires
        placed(data, s),
        has_tokens(data, s, 3),
        is_word(token(data, s, 0), "I"@),
        token(data, s, 1) == Kind::Coma,
        is_register(token(data, s, 2), x),
    ensures
        drive(data, s, Rule::Add, fresh()).result == Ok::<Node, ParseError>(
            Node::Opcode(0xf01e | (x << 8)),
        ),
{
    reveal_with_fuel(after, 5);
    reveal_with_fuel(has_tokens, 5);
    let rule = Rule::Add;
    lemma_words();
    lemma_special_word(name_of(token(data, s, 0)), "I"@);
    lemma_one_token(data, s, rule, fresh());
    lemma_one_token(data, after(data, s, 1), rule, Scratch { step: 1, mode: 1, ..fresh() });
    lemma_one_token(data, after(data, s, 2), rule, Scratch { step: 2, mode: 1, ..fresh() });
}

/// `RND Vx, kk` is the word `Cxkk`.
pub proof fn form_rnd(data: Seq<char>, s: State, x: u16, kk: u16)
    requires
        placed(data, s),
        has_tokens(data, s, 3),
        is_register(token(data, s, 0), x),
        token(data, s, 1) == Kind::Coma,
        token(data, s, 2) == Kind::Number(kk),
    ensures
        drive(data, s, Rule::Rnd, fresh()).result == Ok::<Node, ParseError>(
            Node::Opcode(0xc000 | (x << 8) | kk),
        ),
{
    reveal_with_fuel(after, 5);
    reveal_with_fuel(has_tokens, 5);
    let rule = Rule::Rnd;
    lemma_words();
    lemma_one_token(data, s, rule, fresh());
    lemma_one_token(data, after(data, s, 1), rule, Scratch { vx: x, step: 1, ..fresh() });
    lemma_one_token(data, after(data, s, 2), rule, Scratch { vx: x, step: 2, ..fresh() });
}

/// `DRW Vx, Vy, n` is the word `Dxyn`.
pub proof fn form_drw(data: Seq<char>, s: State, x: u16, y: u16, n: u16)
    requires
        placed(data, s),
        has_tokens(data, s, 5),
        is_register(token(data, s, 0), x),
        token(data, s, 1) == Kind::Coma,
        is_register(token(data, s, 2), y),
        token(data, s, 3) == Kind::Coma,
        token(data, s, 4) == Kind::Number(n),
    ensures
        drive(data, s, Rule::Drw, fresh()).result == Ok::<Node, ParseError>(
            Node::Opcode(0xd000 | (x << 8) | (y << 4) | n),
        ),
{
    reveal_with_fuel(after, 7);
    reveal_with_fuel(has_tokens, 7);
    let rule = Rule::Drw;
    lemma_words();
    lemma_one_token(data, s, rule, fresh());
    lemma_one_token(data, after(data, s, 1), rule, Scratch { vx: x, step: 1, ..fresh() });
    lemma_one_token(data, after(data, s, 2), rule, Scratch { vx: x, step: 2, ..fresh() });
    lemma_one_token(data, after(data, s, 3), rule, Scratch { vx: x, vy: y, step: 3, ..fresh() });
    lemma_one_token(data, after(data, s, 4), rule, Scratch { vx: x, vy: y, step: 4, ..fresh() });
}

/// `LD Vx, kk` is the word `6xkk`.
pub proof fn form_load_immediate(data: Seq<char>, s: State, x: u16, kk: u16)
    requires
        placed(data, s),
        has_tokens(data, s, 3),
        is_register(token(data, s, 0), x),
        token(data, s, 1) == Kind::Coma,
        token(data, s, 2) == Kind::Number(kk),
    ensures
        drive(data, s, Rule::Ld, fresh()).result == Ok::<Node, ParseError>(
            Node::Opcode(0x6000 | (x << 8) | kk),
        ),
{
    reveal_with_fuel(after, 5);
    reveal_with_fuel(has_tokens, 5);
    let rule = Rule::Ld;
    lemma_words();
    lemma_one_token(data, s, rule, fresh());
    lemma_one_token(data, after(data, s, 1), rule, Scratch { vx: x, mode: 1, ..fresh() });
    lemma_one_token(data, after(data, s, 2), rule, Scratch { vx: x, mode: 1, step: 1, ..fresh() });
}

/// `LD Vx, Vy` is the word `8xy0`.
pub proof fn form_load_register(data: Seq<char>, s: State, x: u16, y: u16)
    requires
        placed(data, s),
        has_tokens(data, s, 3),
        is_register(token(data, s, 0), x),
        token(data, s, 1) == Kind::Coma,
        is_register(token(data, s, 2), y),
    ensures
        drive(data, s, Rule::Ld, fresh()).result == Ok::<Node, ParseError>(
            Node::Opcode(0x8000 | (x << 8) | (y << 4)),
        ),
{
    reveal_with_fuel(after, 5);
    reveal_with_fuel(has_tokens, 5);
    let rule = Rule::Ld;
    lemma_words();
    lemma_one_token(data, s, rule, fresh());
    lemma_one_token(data, after(data, s, 1), rule, Scratch { vx: x, mode: 1, ..fresh() });
    lemma_one_token(data, after(data, s, 2), rule, Scratch { vx: x, mode: 1, step: 1, ..fresh() });
}

/// `LD Vx, K` is the word `Fx0A`.
pub proof fn form_load_key(data: Seq<char>, s: State, x: u16)
    requires
        placed(data, s),
        has_tokens(data, s, 3),
        is_register(token(data, s, 0), x),
        token(data, s, 1) == Kind::Coma,
        is_word(token(data, s, 2), "K"@),
    ensures
        drive(data, s, Rule::Ld, fresh()).result == Ok::<Node, ParseError>(
            Node::Opcode(0xf00a | (x << 8)),
        ),
{
    reveal_with_fuel(after, 5);
    reveal_with_fuel(has_tokens, 5);
    let rule = Rule::Ld;
    lemma_words();
    lemma_special_word(name_of(token(data, s, 2)), "K"@);
    lemma_one_token(data, s, rule, fresh());
    lemma_one_token(data, after(data, s, 1), rule, Scratch { vx: x, mode: 1, ..fresh() });
    lemma_one_token(data, after(data, s, 2), rule, Scratch { vx: x, mode: 1, step: 1, ..fresh() });
}

/// `LD Vx, DT` is the word `Fx07`.
pub proof fn form_load_from_delay(data: Seq<char>, s: State, x: u16)
    requires
        placed(data, s),
        has_tokens(data, s, 3),
        is_register(token(data, s, 0), x),
        token(data, s, 1) == Kind::Coma,
        is_word(token(data, s, 2), "DT"@),
    ensures
        drive(data, s, Rule::Ld, fresh()).result == Ok::<Node, ParseError>(
            Node::Opcode(0xf007 | (x << 8)),
        ),
{
    reveal_with_fuel(after, 5);
    reveal_with_fuel(has_tokens, 5);
    let rule = Rule::Ld;
    lemma_words();
    lemma_special_word(name_of(token(data, s, 2)), "DT"@);
    lemma_one_token(data, s, rule, fresh());
    lemma_one_token(data, after(data, s, 1), rule, Scratch { vx: x, mode: 1, ..fresh() });
    lemma_one_token(data, after(data, s, 2), rule, Scratch { vx: x, mode: 1, step: 1, ..fresh() });
}

/// `LD DT, Vx` is the word `Fx15`.
pub proof fn form_load_delay(data: Seq<char>, s: State, x: u16)
    requires
        placed(data, s),
        has_tokens(data, s, 3),
        is_word(token(data, s, 0), "DT"@),
        token(data, s, 1) == Kind::Coma,
        is_register(token(data, s, 2), x),
    ensures
        drive(data, s, Rule::Ld, fresh()).result == Ok::<Node, ParseError>(
            Node::Opcode(0xf015 | (x << 8)),
        ),
{
    reveal_with_fuel(after, 5);
    reveal_with_fuel(has_tokens, 5);
    let rule = Rule::Ld;
    lemma_words();
    lemma_special_word(name_of(token(data, s, 0)), "DT"@);
    lemma_one_token(data, s, rule, fresh());
    lemma_one_token(data, after(data, s, 1), rule, Scratch { code: 0xf015, mode: 2, ..fresh() });
    lemma_one_token(data, after(data, s, 2), rule, Scratch { code: 0xf015, mode: 2, step: 1, ..fresh() });
}

/// `LD ST, Vx` is the word `Fx18`.
pub proof fn form_load_sound(data: Seq<char>, s: State, x: u16)
    requires
        placed(data, s),
        has_tokens(data, s, 3),
        is_word(token(data, s, 0), "ST"@),
        token(data, s, 1) == Kind::Coma,
        is_register(token(data, s, 2), x),
    ensures
        drive(data, s, Rule::Ld, fresh()).result == Ok::<Node, ParseError>(
            Node::Opcode(0xf018 | (x << 8)),
        ),
{
    reveal_with_fuel(after, 5);
    reveal_with_fuel(has_tokens, 5);
    let rule = Rule::Ld;
    lemma_words();
    lemma_special_word(name_of(token(data, s, 0)), "ST"@);
    lemma_one_token(data, s, rule, fresh());
    lemma_one_token(data, after(data, s, 1), rule, Scratch { code: 0xf018, mode: 2, ..fresh() });
    lemma_one_token(data, after(data, s, 2), rule, Scratch { code: 0xf018, mode: 2, step: 1, ..fresh() });
}

/// `LD F, Vx` is the word `Fx29`.
pub proof fn form_load_glyph(data: Seq<char>, s: State, x: u16)
    requires
        placed(data, s),
        has_tokens(data, s, 3),
        is_word(token(data, s, 0), "F"@),
        token(data, s, 1) == Kind::Coma,
        is_register(token(data, s, 2), x),
    ensures
        drive(data, s, Rule::Ld, fresh()).result == Ok::<Node, ParseError>(
            Node::Opcode(0xf029 | (x << 8)),
        ),
{
    reveal_with_fuel(after, 5);
    reveal_with_fuel(has_tokens, 5);
    let rule = Rule::Ld;
    lemma_words();
    lemma_special_word(name_of(token(data, s, 0)), "F"@);
    lemma_one_token(data, s, rule, fresh());
    lemma_one_token(data, after(data, s, 1), rule, Scratch { code: 0xf029, mode: 2, ..fresh() });
    lemma_one_token(data, after(data, s, 2), rule, Scratch { code: 0xf029, mode: 2, step: 1, ..fresh() });
}

/// `LD B, Vx` is the word `Fx33`.
pub proof fn form_load_bcd(data: Seq<char>, s: State, x: u16)
    requires
        placed(data, s),
        has_tokens(data, s, 3),
        is_word(token(data, s, 0), "B"@),
        token(data, s, 1) == Kind::Coma,
        is_register(token(data, s, 2), x),
    ensures
        drive(data, s, Rule::Ld, fresh()).result == Ok::<Node, ParseError>(
            Node::Opcode(0xf033 | (x << 8)),
        ),
{
    reveal_with_fuel(after, 5);
    reveal_with_fuel(has_tokens, 5);
    let rule = Rule::Ld;
    lemma_words();
    lemma_special_word(name_of(token(data, s, 0)), "B"@);
    lemma_one_token(data, s, rule, fresh());
    lemma_one_token(data, after(data, s, 1), rule, Scratch { code: 0xf033, mode: 2, ..fresh() });
    lemma_one_token(data, after(data, s, 2), rule, Scratch { code: 0xf033, mode: 2, step: 1, ..fresh() });
}

/// `LD I, nnn` is the word `Annn`.
pub proof fn form_load_index(data: Seq<char>, s: State, nnn: u16)
    requires
        placed(data, s),
        has_tokens(data, s, 3),
        is_word(token(data, s, 0), "I"@),
        token(data, s, 1) == Kind::Coma,
        token(data, s, 2) == Kind::Number(nnn),
    ensures
        drive(data, s, Rule::Ld, fresh()).result == Ok::<Node, ParseError>(
            Node::Opcode(0xa000 | nnn),
        ),
{
    reveal_with_fuel(after, 5);
    reveal_with_fuel(has_tokens, 5);
    let rule = Rule::Ld;
    lemma_words();
    lemma_special_word(name_of(token(data, s, 0)), "I"@);
    lemma_one_token(data, s, rule, fresh());
    lemma_one_token(data, after(data, s, 1), rule, Scratch { mode: 3, ..fresh() });
    lemma_one_token(data, after(data, s, 2), rule, Scratch { mode: 3, step: 1, ..fresh() });
}

/// `LD I, label` is the word `Annn` with the address of the label still
/// to be filled in.
pub proof fn form_load_index_label(data: Seq<char>, s: State, label: Seq<char>)
    requires
        placed(data, s),
        has_tokens(data, s, 3),
        is_word(token(data, s, 0), "I"@),
        token(data, s, 1) == Kind::Coma,
        token(data, s, 2) == Kind::Name(label),
    ensures
        drive(data, s, Rule::Ld, fresh()).result == Ok::<Node, ParseError>(
            Node::Jump { nemode: 0xa000, address: label },
        ),
{
    reveal_with_fuel(after, 5);
    reveal_with_fuel(has_tokens, 5);
    let rule = Rule::Ld;
    lemma_words();
    lemma_special_word(name_of(token(data, s, 0)), "I"@);
    lemma_one_token(data, s, rule, fresh());
    lemma_one_token(data, after(data, s, 1), rule, Scratch { mode: 3, ..fresh() });
    lemma_one_token(data, after(data, s, 2), rule, Scratch { mode: 3, step: 1, ..fresh() });
}

/// `LD [I], Vx` is the word `Fx55`.
pub proof fn form_load_store(data: Seq<char>, s: State, x: u16)
    requires
        placed(data, s),
        has_tokens(data, s, 5),
        token(data, s, 0) == Kind::OpenSquareBracket,
        is_word(token(data, s, 1), "I"@),
        token(data, s, 2) == Kind::ClosingSquareBracket,
        token(data, s, 3) == Kind::Coma,
        is_register(token(data, s, 4), x),
    ensures
        drive(data, s, Rule::Ld, fresh()).result == Ok::<Node, ParseError>(
            Node::Opcode(0xf055 | (x << 8)),
        ),
{
    reveal_with_fuel(after, 7);
    reveal_with_fuel(has_tokens, 7);
    let rule = Rule::Ld;
    lemma_words();
    lemma_special_word(name_of(token(data, s, 1)), "I"@);
    lemma_one_token(data, s, rule, fresh());
    lemma_one_token(data, after(data, s, 1), rule, Scratch { mode: 4, ..fresh() });
    lemma_one_token(data, after(data, s, 2), rule, Scratch { mode: 4, step: 1, ..fresh() });
    lemma_one_token(data, after(data, s, 3), rule, Scratch { mode: 4, step: 2, ..fresh() });
    lemma_one_token(data, after(data, s, 4), rule, Scratch { mode: 4, step: 3, ..fresh() });
}

/// `LD Vx, [I]` is the word `Fx65`.
pub proof fn form_load_fetch(data: Seq<char>, s: State, x: u16)
    requires
        placed(data, s),
        has_tokens(data, s, 5),
        is_register(token(data, s, 0), x),
        token(data, s, 1) == Kind::Coma,
        token(data, s, 2) == Kind::OpenSquareBracket,
        is_word(token(data, s, 3), "I"@),
        token(data, s, 4) == Kind::ClosingSquareBracket,
    ensures
        drive(data, s, Rule::Ld, fresh()).result == Ok::<Node, ParseError>(
            Node::Opcode(0xf065 | (x << 8)),
        ),
{
    reveal_with_fuel(after, 7);
    reveal_with_fuel(has_tokens, 7);
    let rule = Rule::Ld;
    lemma_words();
    lemma_special_word(name_of(token(data, s, 3)), "I"@);
    lemma_one_token(data, s, rule, fresh());
    lemma_one_token(data, after(data, s, 1), rule, Scratch { vx: x, mode: 1, ..fresh() });
    lemma_one_token(data, after(data, s, 2), rule, Scratch { vx: x, mode: 1, step: 1, ..fresh() });
    lemma_one_token(data, after(data, s, 3), rule, Scratch { vx: x, mode: 1, step: 2, ..fresh() });
    lemma_one_token(data, after(data, s, 4), rule, Scratch { vx: x, mode: 1, step: 3, ..fresh() });
}

/// `JP label` is the word `1nnn` with the address of the label still to
/// be filled in. The label is a name other than `V0`.
pub proof fn form_jump(data: Seq<char>, s: State, label: Seq<char>)
    requires
        placed(data, s),
        has_tokens(data, s, 1),
        is_label(token(data, s, 0), label),
        register_index(label) != 0,
    ensures
        drive(data, s, Rule::Jp, fresh()).result == Ok::<Node, ParseError>(
            Node::Jump { nemode: 0x1000, address: label },
        ),
{
    reveal_with_fuel(after, 3);
    reveal_with_fuel(has_tokens, 3);
    let rule = Rule::Jp;
    lemma_words();
    lemma_one_token(data, s, rule, fresh());
}

/// `JP V0, label` is the word `Bnnn` with the address of the label still
/// to be filled in.
pub proof fn form_jump_v0(data: Seq<char>, s: State, label: Seq<char>)
    requires
        placed(data, s),
        has_tokens(data, s, 3),
        is_register(token(data, s, 0), 0),
        token(data, s, 1) == Kind::Coma,
        is_label(token(data, s, 2), label),
    ensures
        drive(data, s, Rule::Jp, fresh()).result == Ok::<Node, ParseError>(
            Node::Jump { nemode: 0xb000, address: label },
        ),
{
    reveal_with_fuel(after, 5);
    reveal_with_fuel(has_tokens, 5);
    let rule = Rule::Jp;
    lemma_words();
    lemma_one_token(data, s, rule, fresh());
    lemma_one_token(data, after(data, s, 1), rule, Scratch { step: 1, ..fresh() });
    lemma_one_token(data, after(data, s, 2), rule, Scratch { step: 1, ..fresh() });
}

/// `SYS label` and `CALL label`: the instruction's word with the address
/// of the label still to be filled in.
pub proof fn form_call(data: Seq<char>, s: State, nemode: u16, label: Seq<char>)
    requires
        placed(data, s),
        has_tokens(data, s, 1),
        is_label(token(data, s, 0), label),
    ensures
        sys_call(data, s, nemode).result == Ok::<Node, ParseError>(Node::Jump { nemode, address: label }),
{
    reveal_with_fuel(after, 3);
    reveal_with_fuel(has_tokens, 3);
}

} // verus!
