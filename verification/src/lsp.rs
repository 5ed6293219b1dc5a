//! Positions and ranges in a text document, counted as the language server
//! protocol counts them (zero-based lines and characters).
use vstd::prelude::*;

verus! {

/// A position in a text document.
#[derive(Debug, Clone, Copy, PartialEq, Eq, Structural, Hash)]
pub struct Position {
    pub line: u32,
    pub character: u32,
}

impl Position {
    pub fn new(line: u32, character: u32) -> (res: Position)
        ensures
            res == (Position { line, character }),
    {
        Position { line, character }
    }
}

/// A range in a text document, from `start` to `end`.
#[derive(Debug, Clone, Copy, PartialEq, Eq, Structural, Hash)]
pub struct Range {
    pub start: Position,
    pub end: Position,
}

impl Range {
    pub fn new(start: Position, end: Position) -> (res: Range)
        ensures
            res == (Range { start, end }),
    {
        Range { start, end }
    }
}

} // verus!
