use vstd::prelude::*;

use crate::text::{decimal, decimal_string, push_char};

verus! {

/// A span of the source text, counted in characters, together with the line
/// and the column at which it starts (both counted from one).
#[derive(Clone, Copy, Debug, PartialEq, Eq, Structural)]
pub struct Position {
    pub start_position: usize,
    pub end_position: usize,
    pub line: usize,
    pub column: usize,
}

/// A position as text: its line and its column, in decimal, as
/// `line:column`.
pub open spec fn position_text(p: Position) -> Seq<char> {
    decimal(p.line as nat).push(':') + decimal(p.column as nat)
}

impl Position {
    /// Create a position from its start, its end, its line and its column.
    pub fn new(start_position: usize, end_position: usize, line: usize, column: usize) -> (p: Self)
        ensures
            p == (Position { start_position, end_position, line, column }),
    {
        Position { start_position, end_position, line, column }
    }

    /// Move the end of the span, keeping its start, line and column.
    pub fn set_end_position(&mut self, end_position: usize)
        ensures
            *final(self) == (Position { end_position, ..*old(self) }),
    {
        self.end_position = end_position;
    }

    /// The range of the span, from its start to its end.
    pub fn get_range(&self) -> (r: core::ops::Range<usize>)
        ensures
            r.start == self.start_position,
            r.end == self.end_position,
    {
        self.start_position..self.end_position
    }

    /// The position as text: its line and its column, as `line:column`.
    pub fn to_text(&self) -> (t: String)
        ensures
            t@ == position_text(*self),
    {
        let mut t = decimal_string(self.line);
        push_char(&mut t, ':');
        t.append(decimal_string(self.column).as_str());
        t
    }
}

} // verus!
