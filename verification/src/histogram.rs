//! Histogram settings: how colours are told apart and which histogram
//! builder gathers them.
use vstd::prelude::*;

verus! {

/// The colour difference formula used to merge close colours.
#[derive(Debug, Clone, Copy, PartialEq, Eq, Structural)]
pub enum DiffMode {
    /// CIE delta E.
    DeltaE,
    /// Improved delta E.
    ImprovedDeltaE,
}

/// How the histogram is built and sorted.
#[derive(Debug, Clone, Copy, PartialEq, Eq, Structural)]
pub enum Mode {
    /// By luminance.
    Luminance,
    /// By visual salience.
    Salience,
}

} // verus!
