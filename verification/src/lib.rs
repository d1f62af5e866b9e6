//! wallust: generate a terminal colour scheme from an image.
//!
//! This crate holds the verified core of the program: the cache naming and
//! hashing, the image backends (behind the `image` and `fast_image_resize`
//! crates), the ImageMagick output parser, the histogram of colours and the
//! threshold search of the colour spaces, the configuration rules and the
//! decisions that drive palette generation.
pub mod accent;
pub mod cache;
pub mod text;
pub mod colorspaces;
pub mod filters;
pub mod histogram;
pub mod backends;
pub mod args;
pub mod config;
pub mod wal;
pub mod migrate;
pub mod toml_doc;
pub mod terminal_seq;

use vstd::prelude::*;

use crate::cache::{is_cached_spec, IsCached};
use crate::colorspaces::{ColorOrder, FallbackGenerator};
use crate::config::Config;
use crate::filters::{sort_ord, sort_ord_spec, Filters};
use crate::histogram::{DiffMode, Mode};

verus! {

/// How the spinner stops once the scheme is ready.
#[derive(Debug, Clone, Copy, PartialEq, Eq, Structural)]
pub enum SpinnerStop {
    /// "Palette generated".
    Plain,
    /// "Palette generated, using the cache".
    Cache,
    /// The fallback warning if the colour space step warned, else `Plain`.
    WarnOrPlain,
    /// The fallback warning if the cached colour space warned, else `Cache`.
    WarnOrCache,
}

/// One step of filling a scheme. The program around the library performs
/// them in order and stops at the first error.
#[derive(Debug, Clone, Copy, PartialEq, Eq, Structural)]
pub enum GenStep {
    /// Run the backend on the image, giving RGB8 bytes.
    RunBackend,
    /// Cache the backend bytes.
    WriteBackend,
    /// Read the cached backend bytes.
    ReadBackend,
    /// Reduce the bytes with the colour space; no colours is an error
    /// ("Not enough colors!").
    RunColorSpace { dynamic: bool, threshold: u8, fallback: FallbackGenerator, ord: ColorOrder },
    /// Cache the colour space result.
    WriteColorSpace,
    /// Read the cached colour space result (with its warning flag).
    ReadColorSpace,
    /// Fill the scheme with the palette from the colour space result.
    RunPalette,
    /// Build the scheme with the histogram (dark scheme).
    Histogram { threshold: u8, ord: ColorOrder, skip: bool, mode: Mode, diff: DiffMode },
    /// Cache the scheme.
    WritePalette,
    /// Read the cached scheme.
    ReadPalette,
    /// Read the cached preset scheme.
    ReadPreset,
    /// Apply the uncached touches (see `postcolor`).
    PostColor,
    /// Stop the spinner.
    Stop(SpinnerStop),
}

/// How a scheme is filled.
#[derive(Debug, Clone)]
pub struct GenPlan {
    /// Whether to run without the spinner (asked, or so fast that it is not
    /// worth it: the whole scheme is cached).
    pub quiet: bool,
    /// The steps, in order.
    pub steps: Vec<GenStep>,
}

/// The threshold of the configuration, 0 when unset.
pub open spec fn threshold_or_zero(c: Config) -> u8 {
    match c.threshold {
        Some(t) => t,
        None => 0,
    }
}

/// Generating the scheme from scratch: backend, histogram, palette.
pub open spec fn fresh_steps(c: Config, no_cache: bool) -> Seq<GenStep> {
    seq![GenStep::RunBackend]
        + (if no_cache { Seq::empty() } else { seq![GenStep::WriteBackend] })
        + seq![GenStep::Histogram {
            threshold: threshold_or_zero(c),
            ord: sort_ord_spec(c.palette),
            skip: false,
            mode: Mode::Salience,
            diff: DiffMode::DeltaE,
        }]
        + (if no_cache { Seq::empty() } else { seq![GenStep::WritePalette] })
        + seq![GenStep::PostColor, GenStep::Stop(SpinnerStop::Plain)]
}

/// The steps that fill a scheme, given what is cached.
pub open spec fn gen_steps(c: Config, dynamic_th: bool, cached: IsCached, no_cache: bool, overwrite_cache: bool) -> Seq<GenStep> {
    let write_palette = if no_cache { Seq::empty() } else { seq![GenStep::WritePalette] };
    if overwrite_cache {
        fresh_steps(c, no_cache)
    } else {
        match cached {
            IsCached::BackendnCSnPalette => seq![
                GenStep::ReadPalette,
                GenStep::PostColor,
                GenStep::Stop(SpinnerStop::Cache),
            ],
            IsCached::BackendnCS => seq![GenStep::ReadColorSpace, GenStep::RunPalette] + write_palette
                + seq![GenStep::PostColor, GenStep::Stop(SpinnerStop::WarnOrCache)],
            IsCached::Backend => seq![
                GenStep::ReadBackend,
                GenStep::RunColorSpace {
                    dynamic: !(c.threshold is Some && !dynamic_th),
                    threshold: threshold_or_zero(c),
                    fallback: match c.fallback_generator {
                        Some(g) => g,
                        None => FallbackGenerator::Interpolate,
                    },
                    ord: sort_ord_spec(c.palette),
                },
            ] + (if no_cache { Seq::empty() } else { seq![GenStep::WriteColorSpace] })
                + seq![GenStep::RunPalette] + write_palette
                + seq![GenStep::PostColor, GenStep::Stop(SpinnerStop::WarnOrPlain)],
            IsCached::Nothing => fresh_steps(c, no_cache),
            IsCached::Preset => seq![
                GenStep::ReadPreset,
                GenStep::PostColor,
                GenStep::Stop(SpinnerStop::Cache),
            ],
        }
    }
}

fn push_if(steps: &mut Vec<GenStep>, cond: bool, s: GenStep)
    ensures
        final(steps)@ == (if cond { old(steps)@.push(s) } else { old(steps)@ }),
{
    if cond {
        steps.push(s);
    }
}

fn push_fresh(steps: &mut Vec<GenStep>, c: &Config, no_cache: bool)
    ensures
        final(steps)@ == old(steps)@ + fresh_steps(*c, no_cache),
{
    let threshold = match c.threshold {
        Some(t) => t,
        None => 0,
    };
    steps.push(GenStep::RunBackend);
    push_if(steps, !no_cache, GenStep::WriteBackend);
    steps.push(GenStep::Histogram {
        threshold,
        ord: sort_ord(&c.palette),
        skip: false,
        mode: Mode::Salience,
        diff: DiffMode::DeltaE,
    });
    push_if(steps, !no_cache, GenStep::WritePalette);
    steps.push(GenStep::PostColor);
    steps.push(GenStep::Stop(SpinnerStop::Plain));
    assert(final(steps)@ =~= old(steps)@ + fresh_steps(*c, no_cache));
}

/// How the scheme is filled: from scratch, or from what is cached
/// (`cached`, see `Cache::is_cached_all`). `overwrite_cache` ignores the
/// cache, `no_cache` writes nothing to it, and the threshold is searched for
/// (`dynamic`) unless the configuration fixes one and `dynamic_th` is unset.
pub fn gen_colors(
    c: &Config,
    dynamic_th: bool,
    cached: IsCached,
    no_cache: bool,
    quiet: bool,
    overwrite_cache: bool,
) -> (plan: GenPlan)
    ensures
        plan.quiet == (quiet || (cached == IsCached::BackendnCSnPalette && !overwrite_cache)),
        plan.steps@ == gen_steps(*c, dynamic_th, cached, no_cache, overwrite_cache),
{
    let quiet = quiet || (matches!(cached, IsCached::BackendnCSnPalette) && !overwrite_cache);
    let mut steps: Vec<GenStep> = Vec::new();
    if overwrite_cache {
        push_fresh(&mut steps, c, no_cache);
    } else {
        match cached {
            IsCached::BackendnCSnPalette => {
                steps.push(GenStep::ReadPalette);
                steps.push(GenStep::PostColor);
                steps.push(GenStep::Stop(SpinnerStop::Cache));
            },
            IsCached::BackendnCS => {
                steps.push(GenStep::ReadColorSpace);
                steps.push(GenStep::RunPalette);
                push_if(&mut steps, !no_cache, GenStep::WritePalette);
                steps.push(GenStep::PostColor);
                steps.push(GenStep::Stop(SpinnerStop::WarnOrCache));
            },
            IsCached::Backend => {
                let dynamic = if c.threshold.is_some() && !dynamic_th {
                    false
                } else {
                    true
                };
                let fallback = match c.fallback_generator {
                    Some(g) => g,
                    None => FallbackGenerator::default(),
                };
                let threshold = match c.threshold {
                    Some(t) => t,
                    None => 0,
                };
                steps.push(GenStep::ReadBackend);
                steps.push(GenStep::RunColorSpace { dynamic, threshold, fallback, ord: sort_ord(&c.palette) });
                push_if(&mut steps, !no_cache, GenStep::WriteColorSpace);
                steps.push(GenStep::RunPalette);
                push_if(&mut steps, !no_cache, GenStep::WritePalette);
                steps.push(GenStep::PostColor);
                steps.push(GenStep::Stop(SpinnerStop::WarnOrPlain));
            },
            IsCached::Nothing => {
                push_fresh(&mut steps, c, no_cache);
            },
            IsCached::Preset => {
                steps.push(GenStep::ReadPreset);
                steps.push(GenStep::PostColor);
                steps.push(GenStep::Stop(SpinnerStop::Cache));
            },
        }
    }
    assert(steps@ =~= gen_steps(*c, dynamic_th, cached, no_cache, overwrite_cache));
    GenPlan { quiet, steps }
}

/// Whether a step writes to the cache.
pub open spec fn is_cache_write(s: GenStep) -> bool {
    s == GenStep::WriteBackend || s == GenStep::WriteColorSpace || s == GenStep::WritePalette
}

/// Whether a step reads from the cache.
pub open spec fn is_cache_read(s: GenStep) -> bool {
    s == GenStep::ReadBackend || s == GenStep::ReadColorSpace || s == GenStep::ReadPalette
        || s == GenStep::ReadPreset
}

/// `--no-cache` writes nothing to the cache; `--overwrite-cache` reads
/// nothing from it; and every scheme, cached or not, gets the uncached
/// touches and then stops the spinner.
pub proof fn gen_plan_laws(c: Config, dynamic_th: bool, cached: IsCached, no_cache: bool, overwrite_cache: bool)
    ensures
        no_cache ==> forall|i: int| 0 <= i < gen_steps(c, dynamic_th, cached, no_cache, overwrite_cache).len()
            ==> !is_cache_write(#[trigger] gen_steps(c, dynamic_th, cached, no_cache, overwrite_cache)[i]),
        overwrite_cache ==> forall|i: int| 0 <= i < gen_steps(c, dynamic_th, cached, no_cache, overwrite_cache).len()
            ==> !is_cache_read(#[trigger] gen_steps(c, dynamic_th, cached, no_cache, overwrite_cache)[i]),
        ({
            let st = gen_steps(c, dynamic_th, cached, no_cache, overwrite_cache);
            &&& st.len() >= 2
            &&& st[st.len() - 2] == GenStep::PostColor
            &&& st.last() is Stop
        }),
{
    let st = gen_steps(c, dynamic_th, cached, no_cache, overwrite_cache);
    if no_cache {
        assert forall|i: int| 0 <= i < st.len() implies !is_cache_write(#[trigger] st[i]) by {}
    }
    if overwrite_cache {
        assert forall|i: int| 0 <= i < st.len() implies !is_cache_read(#[trigger] st[i]) by {}
    }
}

/// The order in which a palette wants its colours: dark first for the
/// light palettes and the hard dark ones, light first for the others.
pub open spec fn palette_wants_dark_first(f: Filters) -> bool {
    f == Filters::HardDark || f == Filters::HardDark16 || f == Filters::Light || f == Filters::Light16
}

/// Every step that reduces colours carries the configuration's settings:
/// the colour space step and the histogram step sort the colours in the
/// order the palette wants (dark first for `HardDark`, `HardDark16`,
/// `Light` and `Light16`, light first otherwise) and use the configured
/// threshold (0 when unset); the colour space step uses the configured
/// fallback generator (`Interpolate` when unset) and searches for the
/// threshold unless the configuration fixes one and `dynamic_th` is unset.
pub proof fn reducing_steps_follow_config(
    c: Config,
    dynamic_th: bool,
    cached: IsCached,
    no_cache: bool,
    overwrite_cache: bool,
    i: int,
)
    requires
        0 <= i < gen_steps(c, dynamic_th, cached, no_cache, overwrite_cache).len(),
    ensures
        ({
            let st = gen_steps(c, dynamic_th, cached, no_cache, overwrite_cache);
            let want = if palette_wants_dark_first(c.palette) { ColorOrder::DarkFirst } else { ColorOrder::LightFirst };
            let th: u8 = match c.threshold {
                Some(t) => t,
                None => 0,
            };
            &&& st[i] matches GenStep::RunColorSpace { dynamic, threshold, fallback, ord } ==> {
                &&& ord == want
                &&& threshold == th
                &&& fallback == match c.fallback_generator {
                    Some(g) => g,
                    None => FallbackGenerator::Interpolate,
                }
                &&& dynamic == !(c.threshold is Some && !dynamic_th)
            }
            &&& st[i] matches GenStep::Histogram { threshold, ord, .. } ==> ord == want && threshold == th
        }),
{
}

/// How performing a step ended, as far as the plan cares.
#[derive(Debug, Clone, Copy, PartialEq, Eq, Structural)]
pub enum StepEnd {
    /// The step was performed.
    Done,
    /// The colour space found too few colours.
    NoColors,
}

/// What to do after a step of a plan.
#[derive(Debug, Clone, Copy, PartialEq, Eq, Structural)]
pub enum Next {
    /// Perform the step at this position.
    Step(usize),
    /// The plan is done.
    Finished,
    /// Stop with "Not enough colors!": nothing more is performed.
    NotEnoughColors,
}

/// What follows the step at `pos` of a plan of `len` steps that ended with
/// `end`.
pub open spec fn next_spec(len: nat, pos: nat, end: StepEnd) -> Next {
    if end == StepEnd::NoColors {
        Next::NotEnoughColors
    } else if pos + 1 < len {
        Next::Step((pos + 1) as usize)
    } else {
        Next::Finished
    }
}

/// The step to perform after the step at `pos` of `steps` ended with `end`:
/// the next one, the end of the plan, or the "Not enough colors!" error when
/// the colour space found too few colours.
pub fn next_step(steps: &Vec<GenStep>, pos: usize, end: StepEnd) -> (r: Next)
    requires
        pos < steps.len(),
    ensures
        r == next_spec(steps@.len(), pos as nat, end),
{
    if end == StepEnd::NoColors {
        Next::NotEnoughColors
    } else if pos + 1 < steps.len() {
        Next::Step(pos + 1)
    } else {
        Next::Finished
    }
}

/// When the colour space finds too few colours, performing the plan stops
/// at that step with "Not enough colors!", and none of the steps performed,
/// up to and including it, writes to the cache: no colour space result and
/// no scheme is cached.
pub proof fn no_colors_writes_no_cache(
    c: Config,
    dynamic_th: bool,
    cached: IsCached,
    no_cache: bool,
    overwrite_cache: bool,
    k: int,
)
    requires
        0 <= k < gen_steps(c, dynamic_th, cached, no_cache, overwrite_cache).len(),
        gen_steps(c, dynamic_th, cached, no_cache, overwrite_cache)[k] is RunColorSpace,
    ensures
        next_spec(gen_steps(c, dynamic_th, cached, no_cache, overwrite_cache).len(), k as nat, StepEnd::NoColors)
            == Next::NotEnoughColors,
        forall|j: int| 0 <= j <= k ==> !is_cache_write(#[trigger] gen_steps(c, dynamic_th, cached, no_cache, overwrite_cache)[j]),
{
    let st = gen_steps(c, dynamic_th, cached, no_cache, overwrite_cache);
    if !overwrite_cache && cached == IsCached::Backend {
        assert(k == 1);
    }
    assert forall|j: int| 0 <= j <= k implies !is_cache_write(#[trigger] st[j]) by {}
}

/// Which cache files exist after the steps ran: those that existed and
/// those that a step wrote.
pub open spec fn files_after(back: bool, cs: bool, palette: bool, steps: Seq<GenStep>) -> (bool, bool, bool) {
    (
        back || steps.contains(GenStep::WriteBackend),
        cs || steps.contains(GenStep::WriteColorSpace),
        palette || steps.contains(GenStep::WritePalette),
    )
}

/// Once a scheme was made with the cache, the next run with the same
/// image and settings only reads the cached scheme. This holds whenever the
/// backend bytes or the colour space result were cached before; a scheme
/// made from scratch (nothing cached) writes no colour space result, so the
/// run after it goes through the colour space once more.
pub proof fn cached_scheme_is_read_next_time(
    c: Config,
    dynamic_th: bool,
    back: bool,
    cs: bool,
    palette: bool,
)
    requires
        back || cs,
    ensures
        ({
            let steps = gen_steps(c, dynamic_th, is_cached_spec(false, back, cs, palette), false, false);
            let (b2, c2, p2) = files_after(back, cs, palette, steps);
            &&& is_cached_spec(false, b2, c2, p2) == IsCached::BackendnCSnPalette
            &&& gen_steps(c, dynamic_th, is_cached_spec(false, b2, c2, p2), false, false) == seq![
                GenStep::ReadPalette,
                GenStep::PostColor,
                GenStep::Stop(SpinnerStop::Cache),
            ]
        }),
{
    let cached = is_cached_spec(false, back, cs, palette);
    let steps = gen_steps(c, dynamic_th, cached, false, false);
    match cached {
        IsCached::BackendnCSnPalette => {
            assert(steps[0] == GenStep::ReadPalette);
        },
        IsCached::BackendnCS => {
            assert(steps[2] == GenStep::WritePalette);
        },
        IsCached::Backend => {
            assert(steps[0] == GenStep::ReadBackend);
            assert(steps[2] == GenStep::WriteColorSpace);
            assert(steps[4] == GenStep::WritePalette);
        },
        IsCached::Nothing => {
            assert(steps[1] == GenStep::WriteBackend);
            assert(steps[3] == GenStep::WritePalette);
        },
        IsCached::Preset => {},
    }
}

/// The touches applied to every scheme, cached or not.
#[derive(Debug, Clone, Copy, PartialEq, Eq, Structural)]
pub struct PostColor {
    /// Fix the contrast of the scheme against its background.
    pub check_contrast: bool,
    /// Saturate the colours by this many percent.
    pub saturation: Option<u8>,
}

/// The touches that are not cached, since they are cheap and vary: the
/// contrast check when the configuration asks for it, and the saturation.
pub fn postcolor(c: &Config) -> (p: PostColor)
    ensures
        p.check_contrast == (c.check_contrast == Some(true)),
        p.saturation == c.saturation,
{
    let check_contrast = match c.check_contrast {
        Some(b) => b,
        None => false,
    };
    PostColor { check_contrast, saturation: c.saturation }
}

} // verus!
