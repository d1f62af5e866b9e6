use wallust::cache::IsCached;
use wallust::colorspaces::{ColorOrder, FallbackGenerator};
use wallust::config::Config;
use wallust::filters::Filters;
use wallust::histogram::{DiffMode, Mode};
use wallust::{gen_colors, next_step, postcolor, GenStep, Next, SpinnerStop, StepEnd};

fn histo(th: u8, ord: ColorOrder) -> GenStep {
    GenStep::Histogram { threshold: th, ord, skip: false, mode: Mode::Salience, diff: DiffMode::DeltaE }
}

#[test]
fn from_scratch() {
    let c = Config::default();
    let p = gen_colors(&c, false, IsCached::Nothing, false, false, false);
    assert!(!p.quiet);
    assert_eq!(
        p.steps,
        vec![
            GenStep::RunBackend,
            GenStep::WriteBackend,
            histo(0, ColorOrder::LightFirst),
            GenStep::WritePalette,
            GenStep::PostColor,
            GenStep::Stop(SpinnerStop::Plain),
        ]
    );
}

#[test]
fn from_scratch_without_cache() {
    let mut c = Config::default();
    c.threshold = Some(7);
    c.palette = Filters::Light;
    let p = gen_colors(&c, false, IsCached::Nothing, true, true, false);
    assert!(p.quiet);
    assert_eq!(
        p.steps,
        vec![GenStep::RunBackend, histo(7, ColorOrder::DarkFirst), GenStep::PostColor, GenStep::Stop(SpinnerStop::Plain)]
    );
}

#[test]
fn everything_cached_is_quiet() {
    let c = Config::default();
    let p = gen_colors(&c, false, IsCached::BackendnCSnPalette, false, false, false);
    assert!(p.quiet);
    assert_eq!(p.steps, vec![GenStep::ReadPalette, GenStep::PostColor, GenStep::Stop(SpinnerStop::Cache)]);
}

#[test]
fn overwrite_ignores_the_cache() {
    let c = Config::default();
    let p = gen_colors(&c, false, IsCached::BackendnCSnPalette, false, false, true);
    assert!(!p.quiet);
    assert_eq!(p.steps[0], GenStep::RunBackend);
    assert!(!p.steps.contains(&GenStep::ReadPalette));
}

#[test]
fn cached_color_space() {
    let c = Config::default();
    let p = gen_colors(&c, false, IsCached::BackendnCS, false, false, false);
    assert_eq!(
        p.steps,
        vec![
            GenStep::ReadColorSpace,
            GenStep::RunPalette,
            GenStep::WritePalette,
            GenStep::PostColor,
            GenStep::Stop(SpinnerStop::WarnOrCache),
        ]
    );
}

#[test]
fn cached_backend_runs_the_color_space() {
    let mut c = Config::default();
    c.threshold = Some(15);
    c.fallback_generator = Some(FallbackGenerator::Complementary);
    let fixed = gen_colors(&c, false, IsCached::Backend, false, false, false);
    assert_eq!(
        fixed.steps,
        vec![
            GenStep::ReadBackend,
            GenStep::RunColorSpace {
                dynamic: false,
                threshold: 15,
                fallback: FallbackGenerator::Complementary,
                ord: ColorOrder::LightFirst,
            },
            GenStep::WriteColorSpace,
            GenStep::RunPalette,
            GenStep::WritePalette,
            GenStep::PostColor,
            GenStep::Stop(SpinnerStop::WarnOrPlain),
        ]
    );
    let dynamic = gen_colors(&c, true, IsCached::Backend, true, false, false);
    assert_eq!(
        dynamic.steps[1],
        GenStep::RunColorSpace {
            dynamic: true,
            threshold: 15,
            fallback: FallbackGenerator::Complementary,
            ord: ColorOrder::LightFirst,
        }
    );
    assert!(!dynamic.steps.contains(&GenStep::WriteColorSpace));
    let unset = gen_colors(&Config::default(), false, IsCached::Backend, true, false, false);
    assert_eq!(
        unset.steps[1],
        GenStep::RunColorSpace {
            dynamic: true,
            threshold: 0,
            fallback: FallbackGenerator::Interpolate,
            ord: ColorOrder::LightFirst,
        }
    );
}

#[test]
fn preset() {
    let p = gen_colors(&Config::default(), false, IsCached::Preset, false, false, false);
    assert_eq!(p.steps, vec![GenStep::ReadPreset, GenStep::PostColor, GenStep::Stop(SpinnerStop::Cache)]);
}

#[test]
fn post_color_touches() {
    let mut c = Config::default();
    let p = postcolor(&c);
    assert!(!p.check_contrast);
    assert_eq!(p.saturation, None);
    c.check_contrast = Some(true);
    c.saturation = Some(35);
    let p = postcolor(&c);
    assert!(p.check_contrast);
    assert_eq!(p.saturation, Some(35));
    c.check_contrast = Some(false);
    assert!(!postcolor(&c).check_contrast);
}

/// Runs the plan's writes on the existence of the three cache files.
fn after(files: (bool, bool, bool), steps: &[GenStep]) -> (bool, bool, bool) {
    (
        files.0 || steps.contains(&GenStep::WriteBackend),
        files.1 || steps.contains(&GenStep::WriteColorSpace),
        files.2 || steps.contains(&GenStep::WritePalette),
    )
}

fn cached(files: (bool, bool, bool)) -> IsCached {
    let cache = wallust::cache::Cache::new(b"img", &Config::default(), "/c");
    cache.is_cached_all(files.0, files.1, files.2)
}

#[test]
fn second_run_reads_the_cached_scheme() {
    let c = Config::default();
    // backend cached: the run writes the colour space and the scheme
    let files = (true, false, false);
    let p = gen_colors(&c, false, cached(files), false, false, false);
    let files = after(files, &p.steps);
    assert_eq!(cached(files), IsCached::BackendnCSnPalette);
    let p = gen_colors(&c, false, cached(files), false, false, false);
    assert_eq!(p.steps, vec![GenStep::ReadPalette, GenStep::PostColor, GenStep::Stop(SpinnerStop::Cache)]);
}

#[test]
fn run_after_scratch_goes_through_the_color_space() {
    let c = Config::default();
    let files = (false, false, false);
    let p = gen_colors(&c, false, cached(files), false, false, false);
    let files = after(files, &p.steps);
    assert_eq!(files, (true, false, true));
    assert_eq!(cached(files), IsCached::Backend);
}

#[test]
fn no_colours_stops_before_any_cache_write() {
    let c = Config::default();
    let plan = gen_colors(&c, true, IsCached::Backend, false, false, false);
    let k = plan.steps.iter().position(|s| matches!(s, GenStep::RunColorSpace { .. })).unwrap();
    assert_eq!(k, 1);
    assert_eq!(next_step(&plan.steps, k, StepEnd::NoColors), Next::NotEnoughColors);
    assert!(plan.steps[..=k]
        .iter()
        .all(|s| !matches!(s, GenStep::WriteBackend | GenStep::WriteColorSpace | GenStep::WritePalette)));
    assert_eq!(next_step(&plan.steps, k, StepEnd::Done), Next::Step(2));
    assert_eq!(plan.steps[2], GenStep::WriteColorSpace);
    let last = plan.steps.len() - 1;
    assert_eq!(next_step(&plan.steps, last, StepEnd::Done), Next::Finished);
}
