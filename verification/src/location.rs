//! Line/column/offset tracking for the diagnostic evaluation path.
//!
//! A `Location` is an immutable value created at the start of a parse and
//! advanced by scanning the consumed text: each newline byte resets the
//! column to 1 and increments the line; every other byte increments the
//! column by 1; the offset counts every consumed byte.

use vstd::prelude::*;

verus! {

/// The newline byte, `b'\n'`.
pub const NEWLINE: u8 = 10;

/// A position in a text: `line` and `col` are 1-based, `offset` counts
/// consumed bytes from the start of the parse.
#[derive(Copy, Clone, Debug, PartialEq, Eq, Structural)]
pub struct Location {
    pub line: usize,
    pub col: usize,
    pub offset: usize,
}

/// The line counter after consuming `s`, starting from `line0`:
/// each newline increments it.
pub open spec fn line_after(line0: int, s: Seq<u8>) -> int
    decreases s.len(),
{
    if s.len() == 0 {
        line0
    } else {
        line_after(if s[0] == NEWLINE { line0 + 1 } else { line0 }, s.drop_first())
    }
}

/// The column counter after consuming `s`, starting from `col0`:
/// a newline resets it to 1, every other byte increments it.
pub open spec fn col_after(col0: int, s: Seq<u8>) -> int
    decreases s.len(),
{
    if s.len() == 0 {
        col0
    } else {
        col_after(if s[0] == NEWLINE { 1 } else { col0 + 1 }, s.drop_first())
    }
}

impl Location {
    /// The position at the start of a parse: line 1, column 1, offset 0.
    pub fn new() -> (r: Self)
        ensures
            r.line == 1,
            r.col == 1,
            r.offset == 0,
    {
        Self { line: 1, col: 1, offset: 0 }
    }

    /// Bulk advance over the consumed bytes `input`.
    ///
    /// Returns the advanced position and, second, the displacement that the
    /// consumed text causes on its own (the advance from line 0, column 0).
    /// Overflow of the counters is left out by the preconditions.
    pub fn update(self, input: &[u8]) -> (r: (Self, Self))
        requires
            self.line + input@.len() <= usize::MAX,
            self.col + input@.len() <= usize::MAX,
            self.offset + input@.len() <= usize::MAX,
        ensures
            r.0.line == line_after(self.line as int, input@),
            r.0.col == col_after(self.col as int, input@),
            r.0.offset == self.offset + input@.len(),
            r.1.line == line_after(0, input@),
            r.1.col == col_after(0, input@),
            r.1.offset == input@.len(),
    {
        let ghost s = input@;
        let mut aline: usize = self.line;
        let mut acol: usize = self.col;
        let mut dline: usize = 0;
        let mut dcol: usize = 0;
        let mut i: usize = 0;
        proof {
            assert(s.skip(0) =~= s);
        }
        while i < input.len()
            invariant
                i <= s.len(),
                input@ == s,
                self.line + s.len() <= usize::MAX,
                self.col + s.len() <= usize::MAX,
                aline <= self.line + i,
                acol <= self.col + i,
                dline <= i,
                dcol <= i,
                line_after(self.line as int, s) == line_after(aline as int, s.skip(i as int)),
                col_after(self.col as int, s) == col_after(acol as int, s.skip(i as int)),
                line_after(0, s) == line_after(dline as int, s.skip(i as int)),
                col_after(0, s) == col_after(dcol as int, s.skip(i as int)),
            decreases s.len() - i,
        {
            proof {
                assert(s.skip(i as int).drop_first() =~= s.skip(i as int + 1));
                assert(s.skip(i as int)[0] == s[i as int]);
            }
            if input[i] == NEWLINE {
                aline = aline + 1;
                acol = 1;
                dline = dline + 1;
                dcol = 1;
            } else {
                acol = acol + 1;
                dcol = dcol + 1;
            }
            i = i + 1;
        }
        proof {
            assert(s.skip(i as int) =~= Seq::<u8>::empty());
        }
        (
            Location { line: aline, col: acol, offset: self.offset + input.len() },
            Location { line: dline, col: dcol, offset: input.len() },
        )
    }

    /// Single-character fast path of `update`.
    ///
    /// Returns the advanced position and the displacement of the one
    /// character, shaped exactly as `update` would report them for a
    /// one-byte text.
    pub fn update_char(self, input: char) -> (r: (Self, Self))
        requires
            self.line < usize::MAX,
            self.col < usize::MAX,
            self.offset < usize::MAX,
        ensures
            input == '\n' ==> r.0.line == self.line + 1 && r.0.col == 1,
            input != '\n' ==> r.0.line == self.line && r.0.col == self.col + 1,
            r.0.offset == self.offset + 1,
            r.1.line == (if input == '\n' { 1int } else { 0int }),
            r.1.col == 1,
            r.1.offset == 1,
    {
        if input == '\n' {
            (
                Location { line: self.line + 1, col: 1, offset: self.offset + 1 },
                Location { line: 1, col: 1, offset: 1 },
            )
        } else {
            (
                Location { line: self.line, col: self.col + 1, offset: self.offset + 1 },
                Location { line: 0, col: 1, offset: 1 },
            )
        }
    }
}

impl Default for Location {
    /// Same position as `Location::new`.
    fn default() -> (r: Self)
        ensures
            r.line == 1,
            r.col == 1,
            r.offset == 0,
    {
        Self::new()
    }
}

} // verus!
