//! The terminal colours in which the program shows each of its settings.
use vstd::prelude::*;

verus! {

/// An ANSI terminal colour, as the program uses them to show settings.
#[derive(Debug, Clone, Copy, PartialEq, Eq, Structural)]
pub enum Accent {
    Red,
    Green,
    Yellow,
    Blue,
    Magenta,
    Cyan,
    White,
    BrightBlue,
    BrightCyan,
    BrightYellow,
}

} // verus!
