//! Character classes of the tokenizer.
use vstd::prelude::*;
use vstd::string::*;

verus! {

/// Letters for the tokenizer: `A` to `Z`, `a` to `z`, and the underscore.
pub open spec fn alphabetic(c: char) -> bool {
    (65 <= c as u32 <= 90) || (97 <= c as u32 <= 122) || c == '_'
}

/// The decimal digits.
pub open spec fn numeric(c: char) -> bool {
    48 <= c as u32 <= 57
}

pub open spec fn alphanumeric(c: char) -> bool {
    alphabetic(c) || numeric(c)
}

/// What may stand in a number: digits, the letters `a` to `f` in either
/// case, and the `x` of a prefix.
pub open spec fn hexdigit(c: char) -> bool {
    numeric(c) || c == 'x' || (65 <= c as u32 <= 70) || (97 <= c as u32 <= 102)
}

/// Space, line feed and tab.
pub open spec fn whitespace(c: char) -> bool {
    c == ' ' || c == '\n' || c == '\t'
}

#[derive(Debug, Clone, Copy, PartialEq, Eq, Structural)]
pub struct Character {
    pub value: char,
}

impl Character {
    pub fn new(value: char) -> (out: Self)
        ensures
            out.value == value,
    {
        Character { value }
    }

    pub fn is_alphabetic(&self) -> (out: bool)
        ensures
            out == alphabetic(self.value),
    {
        let value: u32 = self.value as u32;
        (value >= 65 && value <= 90) || (value >= 97 && value <= 122) || self.value == '_'
    }

    pub fn is_numeric(&self) -> (out: bool)
        ensures
            out == numeric(self.value),
    {
        let value: u32 = self.value as u32;
        value >= 48 && value <= 57
    }

    pub fn is_alphanumeric(&self) -> (out: bool)
        ensures
            out == alphanumeric(self.value),
    {
        self.is_alphabetic() || self.is_numeric()
    }

    pub fn is_hexdigit(&self) -> (out: bool)
        ensures
            out == hexdigit(self.value),
    {
        if self.is_numeric() || self.value == 'x' {
            return true;
        }
        let value: u32 = self.value as u32;
        (value >= 65 && value <= 70) || (value >= 97 && value <= 102)
    }

    pub fn is_whitespace(&self) -> (out: bool)
        ensures
            out == whitespace(self.value),
    {
        self.value == ' ' || self.value == '\n' || self.value == '\t'
    }

    pub fn unwrap(&self) -> (out: char)
        ensures
            out == self.value,
    {
        self.value
    }

    /// This character followed by the character `rhs`.
    pub fn join(self, rhs: Character) -> (out: String)
        ensures
            out@ == seq![self.value, rhs.value],
    {
        self.join_char(rhs.value)
    }

    /// This character followed by `rhs`.
    pub fn join_char(self, rhs: char) -> (out: String)
        ensures
            out@ == seq![self.value, rhs],
    {
        let mut out = String::new();
        out.push(self.value);
        out.push(rhs);
        assert(out@ =~= seq![self.value, rhs]);
        out
    }

    /// This character followed by the text `rhs`.
    pub fn join_text(self, rhs: String) -> (out: String)
        ensures
            out@ == seq![self.value] + rhs@,
    {
        let mut out = String::new();
        out.push(self.value);
        out.append(rhs.as_str());
        assert(out@ =~= seq![self.value] + rhs@);
        out
    }

    /// Whether this is the character `other`.
    pub fn is(&self, other: char) -> (out: bool)
        ensures
            out == (self.value == other),
    {
        self.value == other
    }
}

} // verus!
