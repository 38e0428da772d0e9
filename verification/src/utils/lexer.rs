//! The lexer: from characters to tokens, one token per call.
use vstd::prelude::*;
use vstd::string::*;
use crate::text::{chars_of, decimal_text, push_count};
use crate::utils::character::{Character, alphabetic, numeric, alphanumeric, hexdigit, whitespace};
use crate::utils::position::Position;
use crate::utils::token::{Token, Kind, Lexeme, symbol_kind, word_lexeme, number_lexeme};

verus! {

/// A quoted text that runs to the end of the input without its closing quote.
#[derive(Debug, Clone, Copy, PartialEq, Eq, Structural)]
pub struct LexError {
    /// The quote that opened the text.
    pub quote: char,
    pub row: usize,
    pub column: usize,
}

impl LexError {
    /// The error in words: the quote that is missing, and the row and the
    /// column at which the lexer stood.
    pub fn message(&self) -> (out: String)
        ensures
            out@ == "Expecting a closing "@ + seq![if self.quote == '\'' { '\'' } else { '"' }]
                + " at row:"@ + decimal_text(self.row as nat) + ", column:"@ + decimal_text(
                self.column as nat,
            ),
    {
        let mut out = String::from_str("Expecting a closing ");
        out.push(if self.quote == '\'' { '\'' } else { '"' });
        out.append(" at row:");
        push_count(&mut out, self.row);
        out.append(", column:");
        push_count(&mut out, self.column);
        out
    }
}

/// The moving part of a lexer as plain values.
pub struct Cursor {
    pub index: int,
    pub current: char,
    pub to_newline: bool,
    pub column: int,
    pub row: int,
}

/// A cursor after one call for a token, with what the call gave.
pub struct Lexed {
    pub cursor: Cursor,
    pub result: Result<Lexeme, LexError>,
}

/// Where the lexer stands when it has looked for the start of the next
/// token: white space is passed over, and so is the rest of a line once a
/// comment has begun. A line feed ends a comment and starts a new row.
pub open spec fn scan(data: Seq<char>, c: Cursor) -> Cursor
    decreases data.len() - c.index,
{
    if c.index < 0 || c.index >= data.len() {
        c
    } else {
        let ch = data[c.index];
        if ch == '\n' {
            scan(
                data,
                Cursor { index: c.index + 1, current: ch, to_newline: false, column: 1, row: c.row + 1 },
            )
        } else if !c.to_newline && !whitespace(ch) {
            Cursor { current: ch, ..c }
        } else {
            scan(data, Cursor { index: c.index + 1, current: ch, column: c.column + 1, ..c })
        }
    }
}

/// The end of the run of name characters that starts at `from`.
pub open spec fn name_end(data: Seq<char>, from: int) -> int
    decreases data.len() - from,
{
    if from < 0 || from >= data.len() || !alphanumeric(data[from]) {
        from
    } else {
        name_end(data, from + 1)
    }
}

/// The end of the run of number characters that starts at `from`.
pub open spec fn number_end(data: Seq<char>, from: int) -> int
    decreases data.len() - from,
{
    if from < 0 || from >= data.len() || !hexdigit(data[from]) {
        from
    } else {
        number_end(data, from + 1)
    }
}

/// The place of the first `quote` from `from` on, or the end of the input.
pub open spec fn quote_end(data: Seq<char>, from: int, quote: char) -> int
    decreases data.len() - from,
{
    if from < 0 || from >= data.len() || data[from] == quote {
        from
    } else {
        quote_end(data, from + 1, quote)
    }
}

/// The cursor after a run of characters from `c.index` to `end` was read.
/// The current character is the one that ended the run, or the last of the
/// run where the input ended with it.
pub open spec fn after_run(data: Seq<char>, c: Cursor, end: int) -> Cursor {
    Cursor {
        index: end,
        column: c.column + (end - c.index),
        current: if end < data.len() {
            data[end]
        } else if end > c.index {
            data[end - 1]
        } else {
            c.current
        },
        ..c
    }
}

/// The token that stands for no token.
pub open spec fn no_lexeme() -> Lexeme {
    Lexeme { kind: Kind::NoToken, position: Position { column: 0, line: 0, width: 0 } }
}

/// One call for a token at a cursor that stands within the input. The
/// current character decides what is read: a name, a number, a quoted text,
/// a comment or a single character. After a comment the next token of the
/// input is given; if the input ends with the comment, the token that
/// stands for none.
pub open spec fn lex(data: Seq<char>, c: Cursor) -> Lexed
    decreases data.len() - c.index,
{
    if alphabetic(c.current) {
        let end = name_end(data, c.index);
        Lexed {
            cursor: after_run(data, c, end),
            result: Ok(word_lexeme(data.subrange(c.index, end), c.column as usize, c.row as usize)),
        }
    } else if numeric(c.current) {
        let end = number_end(data, c.index);
        Lexed {
            cursor: after_run(data, c, end),
            result: Ok(number_lexeme(data.subrange(c.index, end), c.column as usize, c.row as usize)),
        }
    } else if c.current == '"' {
        let open = data[c.index];
        let end = quote_end(data, c.index + 1, open);
        if end < data.len() {
            Lexed {
                cursor: Cursor { index: end + 1, ..c },
                result: Ok(
                    word_lexeme(
                        seq![open] + data.subrange(c.index + 1, end) + seq![open],
                        c.column as usize,
                        c.row as usize,
                    ),
                ),
            }
        } else {
            Lexed {
                cursor: Cursor { index: end, ..c },
                result: Err(LexError { quote: open, row: c.row as usize, column: c.column as usize }),
            }
        }
    } else if c.current == '/' && c.index + 1 < data.len() && data[c.index + 1] == '/' {
        let next = scan(data, Cursor { index: c.index + 1, to_newline: true, ..c });
        if c.index < next.index < data.len() {
            lex(data, next)
        } else {
            Lexed { cursor: next, result: Ok(no_lexeme()) }
        }
    } else {
        Lexed {
            cursor: Cursor { index: c.index + 1, ..c },
            result: Ok(
                Lexeme {
                    kind: symbol_kind(data[c.index]),
                    position: Position { column: c.column as usize, line: c.row as usize, width: 1 },
                },
            ),
        }
    }
}

pub struct Lexer {
    pub index: usize,
    pub current: Character,
    pub data: Vec<char>,
    pub to_newline: bool,
    pub column: usize,
    pub row: usize,
}

impl Lexer {
    /// The moving part of the lexer.
    pub open spec fn cursor(&self) -> Cursor {
        Cursor {
            index: self.index as int,
            current: self.current.value,
            to_newline: self.to_newline,
            column: self.column as int,
            row: self.row as int,
        }
    }

    /// The input.
    pub open spec fn text(&self) -> Seq<char> {
        self.data@
    }

    /// The index lies within the input or at its end, and neither the column
    /// nor the row counts more characters than were passed.
    pub open spec fn well_formed(&self) -> bool {
        self.index <= self.data@.len() && self.column <= self.index && self.row <= self.index
    }

    /// A lexer at the start of `data`. Its current character is the first
    /// of the input, or a space where the input is empty.
    pub fn new(data: &str) -> (out: Self)
        ensures
            out.well_formed(),
            out.text() == data@,
            out.cursor() == (Cursor {
                index: 0,
                current: if data@.len() > 0 { data@[0] } else { ' ' },
                to_newline: false,
                column: 0,
                row: 0,
            }),
    {
        let chars = chars_of(data);
        let init = Character::new(if chars.len() > 0 { chars[0] } else { ' ' });
        Lexer { index: 0, current: init, data: chars, to_newline: false, column: 0, row: 0 }
    }

    /// Moves to the start of the next token and says whether there is one.
    pub fn has_next(&mut self) -> (out: bool)
        requires
            old(self).well_formed(),
        ensures
            final(self).well_formed(),
            final(self).text() == old(self).text(),
            final(self).cursor() == scan(old(self).text(), old(self).cursor()),
            out == (final(self).index < final(self).text().len()),
            out ==> final(self).current.value == final(self).text()[final(self).index as int],
            final(self).index >= old(self).index,
    {
        while self.index < self.data.len()
            invariant
                self.well_formed(),
                self.data == old(self).data,
                self.index >= old(self).index,
                scan(self.data@, self.cursor()) == scan(old(self).data@, old(self).cursor()),
            decreases self.data@.len() - self.index,
        {
            self.current = Character::new(self.data[self.index]);
            if self.current.unwrap() == '\n' {
                self.column = 0;
                self.row += 1;
                self.to_newline = false;
            } else if !self.to_newline && !self.current.is_whitespace() {
                return true;
            }
            self.index += 1;
            self.column += 1;
        }
        false
    }

    fn pop(&mut self) -> (out: char)
        requires
            old(self).well_formed(),
            old(self).index < old(self).data@.len(),
        ensures
            final(self).well_formed(),
            final(self).data == old(self).data,
            out == old(self).data@[old(self).index as int],
            final(self).cursor() == (Cursor { index: old(self).index + 1, ..old(self).cursor() }),
    {
        let size: usize = self.data.len();
        let init: char = self.data[self.index];
        self.index += 1;
        init
    }

    /// Reads one token. The lexer must stand within the input, as it does
    /// after `has_next` said that there is a token.
    pub fn get_next_token(&mut self) -> (out: Result<Token, LexError>)
        requires
            old(self).well_formed(),
            old(self).index < old(self).text().len(),
        ensures
            final(self).well_formed(),
            final(self).text() == old(self).text(),
            final(self).cursor() == lex(old(self).text(), old(self).cursor()).cursor,
            match out {
                Ok(token) => lex(old(self).text(), old(self).cursor()).result == Ok::<Lexeme, LexError>(token@),
                Err(error) => lex(old(self).text(), old(self).cursor()).result == Err::<Lexeme, LexError>(error),
            },
            final(self).index >= old(self).index,
            old(self).current.value == old(self).text()[old(self).index as int] ==> final(self).index > old(self).index,
        decreases old(self).data@.len() - old(self).index,
    {
        if self.current.is_alphabetic() {
            return self.get_name_token();
        } else if self.current.is_numeric() {
            return self.get_number_token();
        } else if self.current.is('"') {
            return self.get_string_token();
        } else if self.current.is('/') {
            let size: usize = self.data.len();
            if self.index + 1 < size && self.data[self.index + 1] == '/' {
                self.pop();
                self.to_newline = true;
                let before: usize = self.index;
                if self.has_next() && self.index >= before {
                    return self.get_next_token();
                }
                return Ok(Token::none());
            }
        }
        let column: usize = self.column;
        let row: usize = self.row;
        Ok(Token::from_char(self.pop(), column, row))
    }

    fn get_name_token(&mut self) -> (out: Result<Token, LexError>)
        requires
            old(self).well_formed(),
        ensures
            final(self).well_formed(),
            final(self).data == old(self).data,
            final(self).cursor() == after_run(
                old(self).data@,
                old(self).cursor(),
                name_end(old(self).data@, old(self).index as int),
            ),
            out is Ok,
            out->Ok_0@ == word_lexeme(
                old(self).data@.subrange(old(self).index as int, name_end(old(self).data@, old(self).index as int)),
                old(self).column,
                old(self).row,
            ),
            final(self).index >= old(self).index,
            old(self).index < old(self).data@.len() && alphanumeric(old(self).data@[old(self).index as int])
                ==> final(self).index > old(self).index,
    {
        let mut builder: Vec<char> = Vec::new();
        let column: usize = self.column;
        let row: usize = self.row;
        let start: usize = self.index;
        while self.index < self.data.len() && Character::new(self.data[self.index]).is_alphanumeric()
            invariant
                self.well_formed(),
                self.data == old(self).data,
                start == old(self).index,
                start <= self.index,
                self.current == old(self).current,
                self.to_newline == old(self).to_newline,
                self.row == old(self).row,
                self.column == old(self).column + (self.index - start),
                name_end(self.data@, self.index as int) == name_end(self.data@, start as int),
                builder@ == self.data@.subrange(start as int, self.index as int),
            decreases self.data@.len() - self.index,
        {
            builder.push(self.data[self.index]);
            assert(self.data@.subrange(start as int, self.index + 1) =~= self.data@.subrange(
                start as int,
                self.index as int,
            ).push(self.data@[self.index as int]));
            self.index += 1;
            self.column += 1;
        }
        if self.index < self.data.len() {
            self.current = Character::new(self.data[self.index]);
        } else if self.index > start {
            self.current = Character::new(self.data[self.index - 1]);
        }
        Ok(Token::from_chars(&builder, column, row))
    }

    fn get_number_token(&mut self) -> (out: Result<Token, LexError>)
        requires
            old(self).well_formed(),
        ensures
            final(self).well_formed(),
            final(self).data == old(self).data,
            final(self).cursor() == after_run(
                old(self).data@,
                old(self).cursor(),
                number_end(old(self).data@, old(self).index as int),
            ),
            out is Ok,
            out->Ok_0@ == number_lexeme(
                old(self).data@.subrange(old(self).index as int, number_end(old(self).data@, old(self).index as int)),
                old(self).column,
                old(self).row,
            ),
            final(self).index >= old(self).index,
            old(self).index < old(self).data@.len() && hexdigit(old(self).data@[old(self).index as int])
                ==> final(self).index > old(self).index,
    {
        let mut builder: Vec<char> = Vec::new();
        let column: usize = self.column;
        let row: usize = self.row;
        let start: usize = self.index;
        while self.index < self.data.len() && Character::new(self.data[self.index]).is_hexdigit()
            invariant
                self.well_formed(),
                self.data == old(self).data,
                start == old(self).index,
                start <= self.index,
                self.current == old(self).current,
                self.to_newline == old(self).to_newline,
                self.row == old(self).row,
                self.column == old(self).column + (self.index - start),
                number_end(self.data@, self.index as int) == number_end(self.data@, start as int),
                builder@ == self.data@.subrange(start as int, self.index as int),
            decreases self.data@.len() - self.index,
        {
            builder.push(self.data[self.index]);
            assert(self.data@.subrange(start as int, self.index + 1) =~= self.data@.subrange(
                start as int,
                self.index as int,
            ).push(self.data@[self.index as int]));
            self.index += 1;
            self.column += 1;
        }
        if self.index < self.data.len() {
            self.current = Character::new(self.data[self.index]);
        } else if self.index > start {
            self.current = Character::new(self.data[self.index - 1]);
        }
        Ok(Token::number_from_chars(&builder, column, row))
    }

    fn get_string_token(&mut self) -> (out: Result<Token, LexError>)
        requires
            old(self).well_formed(),
            old(self).index < old(self).data@.len(),
        ensures
            final(self).well_formed(),
            final(self).data == old(self).data,
            ({
                let data = old(self).data@;
                let c = old(self).cursor();
                let open = data[c.index];
                let end = quote_end(data, c.index + 1, open);
                if end < data.len() {
                    &&& final(self).cursor() == (Cursor { index: end + 1, ..c })
                    &&& out is Ok
                    &&& out->Ok_0@ == word_lexeme(
                        seq![open] + data.subrange(c.index + 1, end) + seq![open],
                        c.column as usize,
                        c.row as usize,
                    )
                } else {
                    &&& final(self).cursor() == (Cursor { index: end, ..c })
                    &&& out == Err::<Token, LexError>(
                        LexError { quote: open, row: c.row as usize, column: c.column as usize },
                    )
                }
            }),
            final(self).index > old(self).index,
    {
        let open: char = self.pop();
        let mut builder: Vec<char> = Vec::new();
        builder.push(open);
        let column: usize = self.column;
        let row: usize = self.row;
        let start: usize = self.index;
        while self.index < self.data.len() && self.data[self.index] != open
            invariant
                self.well_formed(),
                self.data == old(self).data,
                start == old(self).index + 1,
                start <= self.index,
                self.current == old(self).current,
                self.to_newline == old(self).to_newline,
                self.row == old(self).row,
                self.column == old(self).column,
                quote_end(self.data@, self.index as int, open) == quote_end(self.data@, start as int, open),
                builder@ == seq![open] + self.data@.subrange(start as int, self.index as int),
            decreases self.data@.len() - self.index,
        {
            builder.push(self.data[self.index]);
            assert(self.data@.subrange(start as int, self.index + 1) =~= self.data@.subrange(
                start as int,
                self.index as int,
            ).push(self.data@[self.index as int]));
            assert(builder@ =~= seq![open] + self.data@.subrange(start as int, self.index + 1));
            self.index += 1;
        }
        if self.index < self.data.len() {
            let close: char = self.pop();
            builder.push(close);
            assert(builder@ =~= seq![open] + self.data@.subrange(start as int, self.index - 1) + seq![open]);
            return Ok(Token::from_chars(&builder, column, row));
        }
        Err(LexError { quote: open, row: self.row, column: self.column })
    }
}

/// One step of the look for the next token, at the character `ch`.
proof fn lemma_scan_step(data: Seq<char>, c: Cursor, ch: char)
    requires
        0 <= c.index < data.len(),
        data[c.index] == ch,
    ensures
        scan(data, c) == (if ch == '\n' {
            scan(
                data,
                Cursor { index: c.index + 1, current: ch, to_newline: false, column: 1, row: c.row + 1 },
            )
        } else if !c.to_newline && !whitespace(ch) {
            Cursor { current: ch, ..c }
        } else {
            scan(data, Cursor { index: c.index + 1, current: ch, column: c.column + 1, ..c })
        }),
{
}

/// The look for the next token moves forward only and stays within the
/// input. Where it stops within the input, the current character is the
/// one it stopped at.
pub proof fn lemma_scan_moves_on(data: Seq<char>, c: Cursor)
    requires
        0 <= c.index <= data.len(),
    ensures
        c.index <= scan(data, c).index <= data.len(),
        scan(data, c).index < data.len() ==> scan(data, c).current == data[scan(data, c).index],
    decreases data.len() - c.index,
{
    if c.index < data.len() {
        let ch = data[c.index];
        lemma_scan_step(data, c, ch);
        if ch == '\n' {
            lemma_scan_moves_on(
                data,
                Cursor { index: c.index + 1, current: ch, to_newline: false, column: 1, row: c.row + 1 },
            );
        } else if !c.to_newline && !whitespace(ch) {
        } else {
            lemma_scan_moves_on(data, Cursor { index: c.index + 1, current: ch, column: c.column + 1, ..c });
        }
    }
}

/// A run of name characters ends within the input, and behind its first
/// character if it has one.
pub proof fn lemma_name_end(data: Seq<char>, from: int)
    requires
        0 <= from <= data.len(),
    ensures
        from <= name_end(data, from) <= data.len(),
        from < data.len() && alphanumeric(data[from]) ==> from < name_end(data, from),
    decreases data.len() - from,
{
    if from < data.len() && alphanumeric(data[from]) {
        lemma_name_end(data, from + 1);
    }
}

/// A run of number characters ends within the input, and behind its first
/// character if it has one.
pub proof fn lemma_number_end(data: Seq<char>, from: int)
    requires
        0 <= from <= data.len(),
    ensures
        from <= number_end(data, from) <= data.len(),
        from < data.len() && hexdigit(data[from]) ==> from < number_end(data, from),
    decreases data.len() - from,
{
    if from < data.len() && hexdigit(data[from]) {
        lemma_number_end(data, from + 1);
    }
}

/// The search for a closing quote ends within the input.
pub proof fn lemma_quote_end(data: Seq<char>, from: int, quote: char)
    requires
        0 <= from <= data.len(),
    ensures
        from <= quote_end(data, from, quote) <= data.len(),
    decreases data.len() - from,
{
    if from < data.len() && data[from] != quote {
        lemma_quote_end(data, from + 1, quote);
    }
}

/// A call for a token at the start of a token takes at least one
/// character and stays within the input.
pub proof fn lemma_lex_moves_on(data: Seq<char>, c: Cursor)
    requires
        0 <= c.index < data.len(),
        c.current == data[c.index],
    ensures
        c.index < lex(data, c).cursor.index <= data.len(),
    decreases data.len() - c.index,
{
    if alphabetic(c.current) {
        lemma_name_end(data, c.index);
    } else if numeric(c.current) {
        lemma_number_end(data, c.index);
    } else if c.current == '"' {
        lemma_quote_end(data, c.index + 1, data[c.index]);
    } else if c.current == '/' && c.index + 1 < data.len() && data[c.index + 1] == '/' {
        let start = Cursor { index: c.index + 1, to_newline: true, ..c };
        lemma_scan_moves_on(data, start);
        let next = scan(data, start);
        if c.index < next.index < data.len() {
            lemma_lex_moves_on(data, next);
        }
    }
}

} // verus!
