//! Where a token stands in the source.
use vstd::prelude::*;
use vstd::string::*;
use crate::text::{decimal_text, push_count};

verus! {

#[derive(Debug, Clone, Copy, PartialEq, Eq, Structural)]
pub struct Position {
    pub column: usize,
    pub line: usize,
    pub width: usize,
}

/// The smaller of two numbers.
pub open spec fn least(a: usize, b: usize) -> usize {
    if a < b { a } else { b }
}

impl Position {
    pub fn new(column: usize, line: usize, width: usize) -> (out: Self)
        ensures
            out == (Position { column, line, width }),
    {
        Position { column, line, width }
    }

    pub fn column(&self) -> (out: usize)
        ensures
            out == self.column,
    {
        self.column
    }

    pub fn line(&self) -> (out: usize)
        ensures
            out == self.line,
    {
        self.line
    }

    pub fn width(&self) -> (out: usize)
        ensures
            out == self.width,
    {
        self.width
    }

    /// The position for display: its line, then its column.
    pub fn describe(&self) -> (out: String)
        ensures
            out@ == "Line:"@ + decimal_text(self.line as nat) + " at Column: "@ + decimal_text(
                self.column as nat,
            ),
    {
        let mut out = String::from_str("Line:");
        push_count(&mut out, self.line);
        out.append(" at Column: ");
        push_count(&mut out, self.column);
        out
    }

    /// The span that starts at the earlier column and line of the two and
    /// is as wide as both together.
    pub fn join(self, rhs: Position) -> (out: Position)
        requires
            self.width + rhs.width <= usize::MAX,
        ensures
            out == (Position {
                column: least(self.column, rhs.column),
                line: least(self.line, rhs.line),
                width: (self.width + rhs.width) as usize,
            }),
    {
        let column: usize = if self.column < rhs.column { self.column } else { rhs.column };
        let line: usize = if self.line < rhs.line { self.line } else { rhs.line };
        let width: usize = self.width + rhs.width;
        Position { column, line, width }
    }
}

} // verus!
