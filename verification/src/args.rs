//! Command line arguments, as plain values. The `clap` parser that fills
//! them lives in the program around this library.
use vstd::prelude::*;

use crate::backends::Backend;
use crate::colorspaces::{ColorSpace, FallbackGenerator};
use crate::filters::Filters;

verus! {

/// Flags accepted before and after the subcommand.
#[derive(Debug, Clone, Default)]
pub struct Globals {
    /// Colour sequences not to send.
    pub ignore_sequence: Option<Vec<Sequences>>,
    /// Print nothing.
    pub quiet: bool,
    /// Do not set terminal sequences.
    pub skip_sequences: bool,
    /// Skip the templating step.
    pub skip_templates: bool,
    /// Only update the current terminal.
    pub update_current: bool,
    /// A configuration file to use instead of `wallust.toml`.
    pub config_file: Option<String>,
    /// A configuration directory to use instead of the platform's.
    pub config_dir: Option<String>,
    /// A templates directory to use instead of `<config dir>/templates`.
    pub templates_dir: Option<String>,
    /// Do not read any configuration.
    pub no_config: bool,
}

/// The arguments of the `run` subcommand.
#[derive(Debug, Clone, Default)]
pub struct WallustArgs {
    /// Path to the image.
    pub file: String,
    /// Alpha template variable, 0 to 100.
    pub alpha: Option<i64>,
    /// Backend overriding the configuration.
    pub backend: Option<Backend>,
    /// Colour space overriding the configuration.
    pub colorspace: Option<ColorSpace>,
    /// Fallback generator overriding the configuration.
    pub fallback_generator: Option<FallbackGenerator>,
    /// Ensure a readable contrast.
    pub check_contrast: bool,
    /// Do not cache the results.
    pub no_cache: bool,
    /// Palette overriding the configuration.
    pub palette: Option<Filters>,
    /// Saturation to add, 1 to 100 percent.
    pub saturation: Option<i64>,
    /// Threshold between colours, 1 to 100.
    pub threshold: Option<i64>,
    /// Search for the best threshold.
    pub dynamic_threshold: bool,
    /// Generate the colours even when they are cached.
    pub overwrite_cache: bool,
}

impl Globals {
    /// Whether the colour sequences are sent to every terminal: neither
    /// skipped nor sent only to the current one.
    pub fn set_seq(&self) -> (r: bool)
        ensures
            r == (!self.skip_sequences && !self.update_current),
    {
        !self.skip_sequences && !self.update_current
    }
}

impl WallustArgs {
    /// The arguments of the pywal-compatible command line: everything is
    /// left to the configuration file, and the threshold is searched for.
    pub fn from_pywal(file: String) -> (w: Self)
        ensures
            w.file == file,
            w.alpha is None,
            w.backend is None,
            w.colorspace is None,
            w.fallback_generator is None,
            !w.check_contrast,
            !w.no_cache,
            w.palette is None,
            w.saturation is None,
            w.threshold is None,
            w.dynamic_threshold,
            !w.overwrite_cache,
    {
        WallustArgs {
            file,
            alpha: None,
            backend: None,
            colorspace: None,
            fallback_generator: None,
            check_contrast: false,
            no_cache: false,
            palette: None,
            saturation: None,
            threshold: None,
            dynamic_threshold: true,
            overwrite_cache: false,
        }
    }
}

/// The terminal sequences that can be left out.
#[derive(Debug, Clone, Copy, PartialEq, Eq, Structural, Hash)]
pub enum Sequences {
    Background,
    Foreground,
    Cursor,
    Color0,
    Color1,
    Color2,
    Color3,
    Color4,
    Color5,
    Color6,
    Color7,
    Color8,
    Color9,
    Color10,
    Color11,
    Color12,
    Color13,
    Color14,
    Color15,
}

} // verus!
