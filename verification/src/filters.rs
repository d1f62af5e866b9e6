//! Palettes ("filters"): how the gathered colours fill a scheme. Each one
//! wants its colours sorted in a given order.
use vstd::prelude::*;

use crate::accent::Accent;
use crate::colorspaces::ColorOrder;

verus! {

/// The palette to build, the `palette` parameter of the configuration file.
#[derive(Debug, Clone, Copy, PartialEq, Eq, Structural, Hash)]
pub enum Filters {
    /// 8 dark colours, dark background and light contrast (the default).
    Dark,
    /// `Dark` with the 16 colours trick.
    Dark16,
    /// `Dark` with hard hue colours.
    HardDark,
    /// `HardDark` with the 16 colours trick.
    HardDark16,
    /// Light background, dark foreground.
    Light,
    /// `Light` with the 16 colours trick.
    Light16,
    /// The lightest colours on a dark background.
    SoftDark,
    /// `SoftDark` with the 16 colours trick.
    SoftDark16,
    /// Light with soft pastel colours.
    SoftLight,
    /// `SoftLight` with the 16 colours trick.
    SoftLight16,
    /// `Dark` whose colours 9 to 14 are the complements of 1 to 6.
    DarkComp,
}

impl Default for Filters {
    fn default() -> (f: Self)
        ensures
            f == Filters::Dark,
    {
        Filters::Dark
    }
}

/// The order in which a palette wants its colours.
pub open spec fn sort_ord_spec(f: Filters) -> ColorOrder {
    match f {
        Filters::HardDark | Filters::HardDark16 | Filters::Light | Filters::Light16 => ColorOrder::DarkFirst,
        _ => ColorOrder::LightFirst,
    }
}

/// The displayed name of a palette: the name of its variant. It shows the
/// palette in use and names its cache files.
pub open spec fn filter_name_spec(f: Filters) -> Seq<char> {
    match f {
        Filters::Dark => "Dark"@,
        Filters::Dark16 => "Dark16"@,
        Filters::HardDark => "HardDark"@,
        Filters::HardDark16 => "HardDark16"@,
        Filters::Light => "Light"@,
        Filters::Light16 => "Light16"@,
        Filters::SoftDark => "SoftDark"@,
        Filters::SoftDark16 => "SoftDark16"@,
        Filters::SoftLight => "SoftLight"@,
        Filters::SoftLight16 => "SoftLight16"@,
        Filters::DarkComp => "DarkComp"@,
    }
}

/// Uses different sorting on different palettes, which gives more schemes.
pub fn sort_ord(f: &Filters) -> (o: ColorOrder)
    ensures
        o == sort_ord_spec(*f),
{
    match f {
        Filters::Dark
        | Filters::Dark16
        | Filters::SoftDark
        | Filters::SoftDark16
        | Filters::SoftLight
        | Filters::SoftLight16
        | Filters::DarkComp => ColorOrder::LightFirst,
        Filters::HardDark | Filters::HardDark16 | Filters::Light | Filters::Light16 => ColorOrder::DarkFirst,
    }
}

impl Filters {
    /// The colour in which the palette is shown.
    pub fn col(&self) -> (a: Accent)
        ensures
            a == match *self {
                Filters::Dark => Accent::Blue,
                Filters::Dark16 => Accent::Green,
                Filters::HardDark | Filters::HardDark16 => Accent::Magenta,
                Filters::Light => Accent::Yellow,
                Filters::Light16 => Accent::Cyan,
                Filters::SoftDark | Filters::SoftDark16 => Accent::BrightCyan,
                Filters::SoftLight | Filters::SoftLight16 | Filters::DarkComp => Accent::BrightYellow,
            },
    {
        match self {
            Filters::Dark => Accent::Blue,
            Filters::Dark16 => Accent::Green,
            Filters::HardDark => Accent::Magenta,
            Filters::HardDark16 => Accent::Magenta,
            Filters::Light => Accent::Yellow,
            Filters::Light16 => Accent::Cyan,
            Filters::SoftDark => Accent::BrightCyan,
            Filters::SoftDark16 => Accent::BrightCyan,
            Filters::SoftLight => Accent::BrightYellow,
            Filters::SoftLight16 => Accent::BrightYellow,
            Filters::DarkComp => Accent::BrightYellow,
        }
    }

    /// The displayed name, used in cache file names.
    pub fn name(&self) -> (s: String)
        ensures
            s@ == filter_name_spec(*self),
    {
        match self {
            Filters::Dark => String::from_str("Dark"),
            Filters::Dark16 => String::from_str("Dark16"),
            Filters::HardDark => String::from_str("HardDark"),
            Filters::HardDark16 => String::from_str("HardDark16"),
            Filters::Light => String::from_str("Light"),
            Filters::Light16 => String::from_str("Light16"),
            Filters::SoftDark => String::from_str("SoftDark"),
            Filters::SoftDark16 => String::from_str("SoftDark16"),
            Filters::SoftLight => String::from_str("SoftLight"),
            Filters::SoftLight16 => String::from_str("SoftLight16"),
            Filters::DarkComp => String::from_str("DarkComp"),
        }
    }
}

} // verus!
