//! Colour spaces: which one reduces the backend bytes to a palette, whether it
//! mixes similar colours and whether it deduplicates them, and in what order
//! the gathered colours are sorted.
use vstd::prelude::*;

use crate::accent::Accent;

pub mod histo;
pub mod salient;
pub mod search;

pub use histo::Histo;
pub use search::{DynamicSearch, SearchStep};

verus! {

/// Palettes need at least this many colours from the colour space.
pub const MIN_COLS: u8 = 6;

/// A scheme holds at most this many colours.
pub const MAX_COLS: u8 = 16;

/// How to sort the gathered colours.
#[derive(Debug, Clone, Copy, PartialEq, Eq, Structural)]
pub enum ColorOrder {
    /// `colors[0]` is the lightest, the last one the darkest.
    LightFirst,
    /// `colors[0]` is the darkest, the last one the lightest.
    DarkFirst,
}

/// The `color_space` parameter of the configuration file.
#[derive(Debug, Clone, Copy, PartialEq, Eq, Structural, Hash)]
pub enum ColorSpace {
    /// CIE L*a*b*.
    Lab,
    /// `Lab` that mixes the colours it gathers.
    LabMixed,
    /// CIE LCh (the default).
    Lch,
    /// `Lch` that mixes every similar colour.
    LchMixed,
    /// Differentiates colours by visual salience.
    Salience,
    /// `Lch` that keeps the eight ANSI hues in a fixed order.
    LchAnsi,
}

impl Default for ColorSpace {
    fn default() -> (c: Self)
        ensures
            c == ColorSpace::Lch,
    {
        ColorSpace::Lch
    }
}

/// Whether the colour space mixes similar colours together.
pub open spec fn mixed_spec(c: ColorSpace) -> bool {
    c == ColorSpace::LabMixed || c == ColorSpace::LchMixed
}

/// Whether the colour space deduplicates its colours (all but `LchAnsi`, which
/// must keep its order).
pub open spec fn to_dedup_spec(c: ColorSpace) -> bool {
    c != ColorSpace::LchAnsi
}

/// The name of a colour space, as displayed and as written in cache file names.
pub open spec fn color_space_name_spec(c: ColorSpace) -> Seq<char> {
    match c {
        ColorSpace::Lab => "Lab"@,
        ColorSpace::LabMixed => "LabMixed"@,
        ColorSpace::Lch => "Lch"@,
        ColorSpace::LchMixed => "LchMixed"@,
        ColorSpace::Salience => "Salience"@,
        ColorSpace::LchAnsi => "LchAnsi"@,
    }
}

impl ColorSpace {
    /// Whether the colour space mixes similar colours.
    pub fn mixed(&self) -> (r: bool)
        ensures
            r == mixed_spec(*self),
    {
        match self {
            ColorSpace::LabMixed | ColorSpace::LchMixed => true,
            ColorSpace::Lch | ColorSpace::Lab | ColorSpace::Salience | ColorSpace::LchAnsi => false,
        }
    }

    /// Only `LchAnsi` keeps its order and is not deduplicated.
    pub fn to_dedup(&self) -> (r: bool)
        ensures
            r == to_dedup_spec(*self),
    {
        match self {
            ColorSpace::LabMixed
            | ColorSpace::LchMixed
            | ColorSpace::Lch
            | ColorSpace::Salience
            | ColorSpace::Lab => true,
            ColorSpace::LchAnsi => false,
        }
    }

    /// The colour in which the colour space is shown.
    pub fn col(&self) -> (a: Accent)
        ensures
            a == match *self {
                ColorSpace::Lab => Accent::Blue,
                ColorSpace::LabMixed => Accent::Green,
                ColorSpace::Lch | ColorSpace::LchMixed => Accent::Magenta,
                ColorSpace::Salience => Accent::White,
                ColorSpace::LchAnsi => Accent::Cyan,
            },
    {
        match self {
            ColorSpace::Lab => Accent::Blue,
            ColorSpace::LabMixed => Accent::Green,
            ColorSpace::Lch => Accent::Magenta,
            ColorSpace::LchMixed => Accent::Magenta,
            ColorSpace::Salience => Accent::White,
            ColorSpace::LchAnsi => Accent::Cyan,
        }
    }

    /// The displayed name (`Lab`, `LabMixed`, ...), used in cache file names.
    pub fn name(&self) -> (s: String)
        ensures
            s@ == color_space_name_spec(*self),
    {
        match self {
            ColorSpace::Lab => String::from_str("Lab"),
            ColorSpace::LabMixed => String::from_str("LabMixed"),
            ColorSpace::Lch => String::from_str("Lch"),
            ColorSpace::LchMixed => String::from_str("LchMixed"),
            ColorSpace::Salience => String::from_str("Salience"),
            ColorSpace::LchAnsi => String::from_str("LchAnsi"),
        }
    }
}

/// How colours are generated when the image does not give enough of them.
#[derive(Debug, Clone, Copy, PartialEq, Eq, Structural, Hash)]
pub enum FallbackGenerator {
    /// Linear interpolation between the gathered colours (the default).
    Interpolate,
    /// Complementary colours of the gathered ones.
    Complementary,
}

impl FallbackGenerator {
    /// The colour in which the generator is shown.
    pub fn col(&self) -> (a: Accent)
        ensures
            a == match *self {
                FallbackGenerator::Interpolate => Accent::Blue,
                FallbackGenerator::Complementary => Accent::Green,
            },
    {
        match self {
            FallbackGenerator::Interpolate => Accent::Blue,
            FallbackGenerator::Complementary => Accent::Green,
        }
    }
}

impl Default for FallbackGenerator {
    fn default() -> (g: Self)
        ensures
            g == FallbackGenerator::Interpolate,
    {
        FallbackGenerator::Interpolate
    }
}

/// How the gathered colours become a palette.
#[derive(Debug, Clone, Copy, PartialEq, Eq, Structural)]
pub enum Completion {
    /// Fewer than two colours: no palette.
    NotEnough,
    /// Exactly two colours: generate the others from them (with a warning).
    Monochromatic,
    /// Complete the colours with the fallback generator at this threshold
    /// (with a warning).
    Fallback(u8),
    /// The colours are enough as they are.
    Keep,
}

/// What becomes of the colours the dynamic search ends with: fewer than two
/// give no palette, two are completed by the monochromatic generator, three
/// to five by the fallback generator at the search's threshold, and six or
/// more are used as they are unless the search asked for generated colours.
pub proof fn dynamic_completion_by_count(len: usize, fallback: bool, threshold: u8, c: Completion)
    requires
        call_ensures(dynamic_completion, (len, fallback, threshold), c),
    ensures
        len < 2 ==> c == Completion::NotEnough,
        len == 2 ==> c == Completion::Monochromatic,
        3 <= len <= 5 ==> c == Completion::Fallback(threshold),
        len >= 3 && fallback ==> c == Completion::Fallback(threshold),
        len >= 6 && !fallback ==> c == Completion::Keep,
{
}

/// What becomes of the colours of a single try: none gives no palette, two
/// are completed by the monochromatic generator, other counts below six by
/// the fallback generator at the threshold, and six or more are used as
/// they are.
pub proof fn once_completion_by_count(len: Option<usize>, threshold: u8, c: Completion)
    requires
        call_ensures(once_completion, (len, threshold), c),
    ensures
        len is None ==> c == Completion::NotEnough,
        len == Some(2usize) ==> c == Completion::Monochromatic,
        len matches Some(n) && n != 2 && n < 6 ==> c == Completion::Fallback(threshold),
        len matches Some(n) && n >= 6 ==> c == Completion::Keep,
{
}

/// After the dynamic search: `len` colours were kept (0 when the search
/// stopped without finding any), `fallback` and `threshold` are the
/// search's.
pub fn dynamic_completion(len: usize, fallback: bool, threshold: u8) -> (c: Completion)
    ensures
        c == (if len < 2 {
            Completion::NotEnough
        } else if len == 2 {
            Completion::Monochromatic
        } else if fallback || len < MIN_COLS {
            Completion::Fallback(threshold)
        } else {
            Completion::Keep
        }),
{
    if len < 2 {
        Completion::NotEnough
    } else if len == 2 {
        Completion::Monochromatic
    } else if fallback || len < MIN_COLS as usize {
        Completion::Fallback(threshold)
    } else {
        Completion::Keep
    }
}

/// With one fixed threshold: `len` is the number of colours after
/// deduplication, `None` when the colour space found fewer than two. Fewer
/// than `MIN_COLS` colours (even 0 or 1 after deduplication) are completed
/// by the fallback generator, and exactly two by the monochromatic one.
pub fn once_completion(len: Option<usize>, threshold: u8) -> (c: Completion)
    ensures
        c == match len {
            None => Completion::NotEnough,
            Some(n) => if n == 2 {
                Completion::Monochromatic
            } else if n < MIN_COLS {
                Completion::Fallback(threshold)
            } else {
                Completion::Keep
            },
        },
{
    match len {
        None => Completion::NotEnough,
        Some(n) => {
            if n == 2 {
                Completion::Monochromatic
            } else if n < MIN_COLS as usize {
                Completion::Fallback(threshold)
            } else {
                Completion::Keep
            }
        },
    }
}

} // verus!
