use std::collections::HashMap;

use wallust::args::{Globals, WallustArgs};
use wallust::backends::Backend;
use wallust::colorspaces::{ColorOrder, ColorSpace, FallbackGenerator};
use wallust::config::{config_paths, validate_threshold, Config, ConfigError, Fields, ThresholdError};
use wallust::filters::{sort_ord, Filters};

#[test]
fn threshold_validation() {
    assert_eq!(validate_threshold(None), Ok(None));
    assert_eq!(validate_threshold(Some(0)), Ok(Some(0)));
    assert_eq!(validate_threshold(Some(100)), Ok(Some(100)));
    assert_eq!(validate_threshold(Some(101)), Err(ThresholdError { value: 101 }));
    assert_eq!(validate_threshold(Some(255)), Err(ThresholdError { value: 255 }));
}

#[test]
fn default_paths() {
    let g = Globals::default();
    let p = config_paths(&g, Some("/home/u/.config".to_string())).unwrap();
    assert_eq!(p.dir, "/home/u/.config/wallust");
    assert_eq!(p.file, "/home/u/.config/wallust/wallust.toml");
    assert_eq!(p.templates_dir, "/home/u/.config/wallust/templates");
}

#[test]
fn custom_paths() {
    let mut g = Globals::default();
    g.config_dir = Some("/etc/w".to_string());
    let p = config_paths(&g, None).unwrap();
    assert_eq!(p.dir, "/etc/w");
    assert_eq!(p.file, "/etc/w/wallust.toml");
    g.config_file = Some("/x/my.toml".to_string());
    g.templates_dir = Some("/t".to_string());
    let p = config_paths(&g, None).unwrap();
    assert_eq!(p.file, "/x/my.toml");
    assert_eq!(p.templates_dir, "/t");
}

#[test]
fn no_platform_dir_is_an_error() {
    let g = Globals::default();
    assert!(matches!(config_paths(&g, None), Err(ConfigError::NoConfigDir)));
    assert!(matches!(Config::new(&g, None, true, true, None), Err(ConfigError::NoConfigDir)));
}

#[test]
fn missing_config_file_given_on_the_command_line() {
    let mut g = Globals::default();
    g.config_file = Some("/nope.toml".to_string());
    match Config::new(&g, Some("/h".to_string()), false, true, None) {
        Err(ConfigError::MissingConfigFile(f)) => assert_eq!(f, "/nope.toml"),
        _ => panic!("expected a missing file error"),
    }
}

#[test]
fn missing_templates_dir_given_on_the_command_line() {
    let mut g = Globals::default();
    g.templates_dir = Some("/nope".to_string());
    match Config::new(&g, Some("/h".to_string()), false, false, None) {
        Err(ConfigError::MissingTemplatesDir(t)) => assert_eq!(t, "/nope"),
        _ => panic!("expected a missing directory error"),
    }
}

#[test]
fn absent_file_gives_defaults() {
    let g = Globals::default();
    let c = Config::new(&g, Some("/h".to_string()), false, false, None).unwrap();
    assert_eq!(c.backend, Backend::FastResize);
    assert_eq!(c.color_space, ColorSpace::Lch);
    assert_eq!(c.palette, Filters::Dark);
    assert_eq!(c.threshold, None);
    assert_eq!(c.true_th, 0);
    assert_eq!(c.dir, "/h/wallust");
    assert_eq!(c.file, "/h/wallust/wallust.toml");
    assert_eq!(c.templates_dir, "/h/wallust/templates");
}

#[test]
fn loaded_file_settles_its_choices() {
    let g = Globals::default();
    let mut loaded = Config::default();
    loaded.backend_user = Some(Backend::Kmeans);
    loaded.palette_user = Some(Filters::SoftLight);
    loaded.threshold = Some(11);
    loaded.true_th = 42;
    let mut t = HashMap::new();
    t.insert(
        "dunst".to_string(),
        Fields { template: "dunstrc".to_string(), target: "~/.config/dunst/dunstrc".to_string(), pywal: None },
    );
    loaded.templates = Some(t);
    let c = Config::new(&g, Some("/h".to_string()), true, false, Some(loaded)).unwrap();
    assert_eq!(c.backend, Backend::Kmeans);
    assert_eq!(c.color_space, ColorSpace::Lch);
    assert_eq!(c.palette, Filters::SoftLight);
    assert_eq!(c.threshold, Some(11));
    assert_eq!(c.true_th, 0);
    assert_eq!(c.templates.as_ref().unwrap()["dunst"].template, "dunstrc");
}

#[test]
fn command_line_overrides() {
    let mut c = Config::default();
    c.alpha = Some(50);
    let cli = WallustArgs {
        backend: Some(Backend::Thumb),
        colorspace: Some(ColorSpace::Salience),
        palette: Some(Filters::Light16),
        threshold: Some(300),
        saturation: Some(20),
        check_contrast: true,
        fallback_generator: Some(FallbackGenerator::Complementary),
        ..WallustArgs::default()
    };
    c.customs_cli(&cli);
    assert_eq!(c.backend, Backend::Thumb);
    assert_eq!(c.color_space, ColorSpace::Salience);
    assert_eq!(c.palette, Filters::Light16);
    // the threshold is cast to u8
    assert_eq!(c.threshold, Some(44));
    assert_eq!(c.saturation, Some(20));
    assert_eq!(c.alpha, Some(50));
    assert_eq!(c.check_contrast, Some(true));
    assert_eq!(c.fallback_generator, Some(FallbackGenerator::Complementary));
}

#[test]
fn command_line_overrides_are_idempotent() {
    let cli = WallustArgs { threshold: Some(10), alpha: Some(3), ..WallustArgs::default() };
    let mut once = Config::default();
    once.customs_cli(&cli);
    let mut twice = once.clone();
    twice.customs_cli(&cli);
    assert_eq!(once.threshold, twice.threshold);
    assert_eq!(once.alpha, twice.alpha);
    assert_eq!(twice.threshold, Some(10));
}

#[test]
fn unset_command_line_keeps_the_file() {
    let mut c = Config::default();
    c.check_contrast = Some(false);
    c.backend = Backend::Wal;
    c.customs_cli(&WallustArgs::default());
    assert_eq!(c.check_contrast, Some(false));
    assert_eq!(c.backend, Backend::Wal);
    assert_eq!(c.threshold, None);
}

#[test]
fn palette_orders() {
    for f in [
        Filters::Dark,
        Filters::Dark16,
        Filters::SoftDark,
        Filters::SoftDark16,
        Filters::SoftLight,
        Filters::SoftLight16,
        Filters::DarkComp,
    ] {
        assert_eq!(sort_ord(&f), ColorOrder::LightFirst);
    }
    for f in [Filters::HardDark, Filters::HardDark16, Filters::Light, Filters::Light16] {
        assert_eq!(sort_ord(&f), ColorOrder::DarkFirst);
    }
}

#[test]
fn color_space_flags() {
    assert!(ColorSpace::LabMixed.mixed());
    assert!(ColorSpace::LchMixed.mixed());
    assert!(!ColorSpace::Lab.mixed());
    assert!(!ColorSpace::Salience.mixed());
    assert!(!ColorSpace::LchAnsi.to_dedup());
    assert!(ColorSpace::Lch.to_dedup());
    assert!(ColorSpace::Salience.to_dedup());
}

#[test]
fn names() {
    assert_eq!(Backend::FastResize.name(), "FastResize");
    assert_eq!(Backend::Kmeans.name(), "Kmeans");
    assert_eq!(ColorSpace::LchAnsi.name(), "LchAnsi");
    assert_eq!(Filters::HardDark16.name(), "HardDark16");
    assert_eq!(Filters::DarkComp.name(), "DarkComp");
    assert_eq!(Filters::SoftLight16.name(), "SoftLight16");
}

#[test]
fn defaults() {
    assert_eq!(Backend::default(), Backend::FastResize);
    assert_eq!(ColorSpace::default(), ColorSpace::Lch);
    assert_eq!(Filters::default(), Filters::Dark);
    assert_eq!(FallbackGenerator::default(), FallbackGenerator::Interpolate);
}
