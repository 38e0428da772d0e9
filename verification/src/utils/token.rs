//! Tokens and their kinds.
use vstd::prelude::*;
use vstd::string::*;
use crate::text::{chars_of, string_of, hex_value, hex_of_chars, equal_chars};
use crate::utils::position::Position;

verus! {

#[derive(Clone, Debug)]
pub enum TokenType {
    Name(String),
    String(String),
    Number(u16),
    Boolean(String),
    Conditional(String),
    ForwardSlash,
    OpenSquareBracket,
    ClosingSquareBracket,
    Term(char),
    Factor(char),
    OpenCurlyBracket,
    ClosingCurlyBracket,
    OpenBracket,
    ClosingBracket,
    Colon,
    SemiColon,
    Coma,
    Equal,
    Dot,
    NoToken,
    Unknown(char),
}

/// A token kind as plain values: texts are character sequences.
pub enum Kind {
    Name(Seq<char>),
    Text(Seq<char>),
    Number(u16),
    Boolean(Seq<char>),
    Conditional(Seq<char>),
    ForwardSlash,
    OpenSquareBracket,
    ClosingSquareBracket,
    Term(char),
    Factor(char),
    OpenCurlyBracket,
    ClosingCurlyBracket,
    OpenBracket,
    ClosingBracket,
    Colon,
    SemiColon,
    Coma,
    Equal,
    Dot,
    NoToken,
    Unknown(char),
}

impl View for TokenType {
    type V = Kind;

    open spec fn view(&self) -> Kind {
        match *self {
            TokenType::Name(s) => Kind::Name(s@),
            TokenType::String(s) => Kind::Text(s@),
            TokenType::Number(n) => Kind::Number(n),
            TokenType::Boolean(s) => Kind::Boolean(s@),
            TokenType::Conditional(s) => Kind::Conditional(s@),
            TokenType::ForwardSlash => Kind::ForwardSlash,
            TokenType::OpenSquareBracket => Kind::OpenSquareBracket,
            TokenType::ClosingSquareBracket => Kind::ClosingSquareBracket,
            TokenType::Term(c) => Kind::Term(c),
            TokenType::Factor(c) => Kind::Factor(c),
            TokenType::OpenCurlyBracket => Kind::OpenCurlyBracket,
            TokenType::ClosingCurlyBracket => Kind::ClosingCurlyBracket,
            TokenType::OpenBracket => Kind::OpenBracket,
            TokenType::ClosingBracket => Kind::ClosingBracket,
            TokenType::Colon => Kind::Colon,
            TokenType::SemiColon => Kind::SemiColon,
            TokenType::Coma => Kind::Coma,
            TokenType::Equal => Kind::Equal,
            TokenType::Dot => Kind::Dot,
            TokenType::NoToken => Kind::NoToken,
            TokenType::Unknown(c) => Kind::Unknown(c),
        }
    }
}

impl TokenType {
    /// A copy of this kind.
    pub fn duplicate(&self) -> (out: TokenType)
        ensures
            out@ == self@,
    {
        match self {
            TokenType::Name(s) => TokenType::Name(s.clone()),
            TokenType::String(s) => TokenType::String(s.clone()),
            TokenType::Number(n) => TokenType::Number(*n),
            TokenType::Boolean(s) => TokenType::Boolean(s.clone()),
            TokenType::Conditional(s) => TokenType::Conditional(s.clone()),
            TokenType::ForwardSlash => TokenType::ForwardSlash,
            TokenType::OpenSquareBracket => TokenType::OpenSquareBracket,
            TokenType::ClosingSquareBracket => TokenType::ClosingSquareBracket,
            TokenType::Term(c) => TokenType::Term(*c),
            TokenType::Factor(c) => TokenType::Factor(*c),
            TokenType::OpenCurlyBracket => TokenType::OpenCurlyBracket,
            TokenType::ClosingCurlyBracket => TokenType::ClosingCurlyBracket,
            TokenType::OpenBracket => TokenType::OpenBracket,
            TokenType::ClosingBracket => TokenType::ClosingBracket,
            TokenType::Colon => TokenType::Colon,
            TokenType::SemiColon => TokenType::SemiColon,
            TokenType::Coma => TokenType::Coma,
            TokenType::Equal => TokenType::Equal,
            TokenType::Dot => TokenType::Dot,
            TokenType::NoToken => TokenType::NoToken,
            TokenType::Unknown(c) => TokenType::Unknown(*c),
        }
    }
}

/// A token as plain values.
pub struct Lexeme {
    pub kind: Kind,
    pub position: Position,
}

/// The kind of a single punctuation character.
pub open spec fn symbol_kind(c: char) -> Kind {
    if c == '{' {
        Kind::OpenCurlyBracket
    } else if c == '}' {
        Kind::ClosingCurlyBracket
    } else if c == '[' {
        Kind::OpenSquareBracket
    } else if c == ']' {
        Kind::ClosingSquareBracket
    } else if c == '(' {
        Kind::OpenBracket
    } else if c == ')' {
        Kind::ClosingBracket
    } else if c == ':' {
        Kind::Colon
    } else if c == ';' {
        Kind::SemiColon
    } else if c == ',' {
        Kind::Coma
    } else if c == '*' {
        Kind::Factor('*')
    } else if c == '+' {
        Kind::Term('+')
    } else if c == '-' {
        Kind::Term('-')
    } else if c == '=' {
        Kind::Equal
    } else if c == '.' {
        Kind::Dot
    } else {
        Kind::Unknown(c)
    }
}

/// Whether a word opens and closes with the same quote character.
pub open spec fn quoted(s: Seq<char>) -> bool {
    s.len() > 0 && ((s[0] == '"' && s.last() == '"') || (s[0] == '\'' && s.last() == '\''))
}

/// What lies between the quotes of a quoted word.
pub open spec fn unquoted(s: Seq<char>) -> Seq<char> {
    if s.len() >= 2 { s.subrange(1, s.len() - 1) } else { Seq::empty() }
}

/// The token that a word stands for: a quoted text, a truth value or a name.
pub open spec fn word_lexeme(s: Seq<char>, x: usize, y: usize) -> Lexeme {
    if quoted(s) {
        Lexeme {
            kind: Kind::Text(unquoted(s)),
            position: Position { column: x, line: y, width: unquoted(s).len() as usize },
        }
    } else if s == "true"@ || s == "false"@ {
        Lexeme { kind: Kind::Boolean(s), position: Position { column: x, line: y, width: s.len() as usize } }
    } else {
        Lexeme { kind: Kind::Name(s), position: Position { column: x, line: y, width: s.len() as usize } }
    }
}

/// The token that a number literal stands for.
pub open spec fn number_lexeme(s: Seq<char>, x: usize, y: usize) -> Lexeme {
    Lexeme {
        kind: Kind::Number(hex_value(s) as u16),
        position: Position { column: x, line: y, width: s.len() as usize },
    }
}

#[derive(Clone, Debug)]
pub struct Token {
    pub tokentype: TokenType,
    pub position: Position,
}

impl View for Token {
    type V = Lexeme;

    open spec fn view(&self) -> Lexeme {
        Lexeme { kind: self.tokentype@, position: self.position }
    }
}

impl Token {
    /// The token of a single punctuation character at column `x` of line `y`.
    pub fn from_char(init: char, x: usize, y: usize) -> (out: Self)
        ensures
            out@ == (Lexeme { kind: symbol_kind(init), position: Position { column: x, line: y, width: 1 } }),
    {
        let tokentype = if init == '{' {
            TokenType::OpenCurlyBracket
        } else if init == '}' {
            TokenType::ClosingCurlyBracket
        } else if init == '[' {
            TokenType::OpenSquareBracket
        } else if init == ']' {
            TokenType::ClosingSquareBracket
        } else if init == '(' {
            TokenType::OpenBracket
        } else if init == ')' {
            TokenType::ClosingBracket
        } else if init == ':' {
            TokenType::Colon
        } else if init == ';' {
            TokenType::SemiColon
        } else if init == ',' {
            TokenType::Coma
        } else if init == '*' {
            TokenType::Factor('*')
        } else if init == '+' {
            TokenType::Term('+')
        } else if init == '-' {
            TokenType::Term('-')
        } else if init == '=' {
            TokenType::Equal
        } else if init == '.' {
            TokenType::Dot
        } else {
            TokenType::Unknown(init)
        };
        Token { tokentype, position: Position::new(x, y, 1) }
    }

    /// The token of a word given as characters.
    pub fn from_chars(init: &Vec<char>, x: usize, y: usize) -> (out: Self)
        ensures
            out@ == word_lexeme(init@, x, y),
    {
        let n: usize = init.len();
        if n > 0 && ((init[0] == '"' && init[n - 1] == '"') || (init[0] == '\'' && init[n - 1] == '\'')) {
            let mut sub: Vec<char> = Vec::new();
            let mut index: usize = 1;
            while index + 1 < n
                invariant
                    1 <= index,
                    n == init@.len(),
                    index <= n,
                    n >= 2 ==> index + 1 <= n,
                    n >= 2 ==> sub@ == init@.subrange(1, index as int),
                    n < 2 ==> sub@ == Seq::<char>::empty(),
                decreases n - index,
            {
                sub.push(init[index]);
                assert(init@.subrange(1, index + 1) =~= init@.subrange(1, index as int).push(init@[index as int]));
                index += 1;
            }
            assert(n >= 2 ==> index + 1 == n);
            assert(sub@ =~= unquoted(init@));
            let width: usize = sub.len();
            return Token { tokentype: TokenType::String(string_of(&sub)), position: Position::new(x, y, width) };
        }
        if equal_chars(init, "true") || equal_chars(init, "false") {
            return Token { tokentype: TokenType::Boolean(string_of(init)), position: Position::new(x, y, n) };
        }
        Token { tokentype: TokenType::Name(string_of(init)), position: Position::new(x, y, n) }
    }

    /// The token of a word: a quoted text, a truth value or a name.
    pub fn from_str(init: &str, x: usize, y: usize) -> (out: Self)
        ensures
            out@ == word_lexeme(init@, x, y),
    {
        let chars = chars_of(init);
        Token::from_chars(&chars, x, y)
    }

    /// The token of a number literal given as characters.
    pub fn number_from_chars(init: &Vec<char>, x: usize, y: usize) -> (out: Self)
        ensures
            out@ == number_lexeme(init@, x, y),
    {
        let value: u16 = hex_of_chars(init);
        Token { tokentype: TokenType::Number(value), position: Position::new(x, y, init.len()) }
    }

    /// The token of a hexadecimal number literal.
    pub fn from_number(init: &str, x: usize, y: usize) -> (out: Self)
        ensures
            out@ == number_lexeme(init@, x, y),
    {
        let chars = chars_of(init);
        Token::number_from_chars(&chars, x, y)
    }

    /// The token that stands for no token.
    pub fn none() -> (out: Self)
        ensures
            out@ == (Lexeme { kind: Kind::NoToken, position: Position { column: 0, line: 0, width: 0 } }),
    {
        Token { tokentype: TokenType::NoToken, position: Position::new(0, 0, 0) }
    }

    pub fn tokentype(&self) -> (out: TokenType)
        ensures
            out@ == self.tokentype@,
    {
        self.tokentype.duplicate()
    }

    pub fn position(&self) -> (out: Position)
        ensures
            out == self.position,
    {
        self.position
    }
}

} // verus!
