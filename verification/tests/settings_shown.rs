use wallust::accent::Accent;
use wallust::args::{Globals, WallustArgs};
use wallust::backends::Backend;
use wallust::colorspaces::{ColorSpace, FallbackGenerator};
use std::collections::HashMap;

use wallust::config::{trim_end, Config, Fields};
use wallust::filters::Filters;

#[test]
fn accents_of_settings() {
    assert_eq!(Filters::Dark.col(), Accent::Blue);
    assert_eq!(Filters::HardDark16.col(), Accent::Magenta);
    assert_eq!(Filters::DarkComp.col(), Accent::BrightYellow);
    assert_eq!(Backend::Kmeans.col(), Accent::BrightBlue);
    assert_eq!(Backend::Wal.col(), Accent::Red);
    assert_eq!(ColorSpace::Salience.col(), Accent::White);
    assert_eq!(ColorSpace::LchMixed.col(), Accent::Magenta);
    assert_eq!(FallbackGenerator::Complementary.col(), Accent::Green);
}

#[test]
fn threshold_accent_by_range() {
    let mut c = Config::default();
    let cases = [
        (0u8, Accent::Red),
        (1, Accent::Yellow),
        (2, Accent::Cyan),
        (3, Accent::Green),
        (10, Accent::Green),
        (11, Accent::Blue),
        (49, Accent::Blue),
        (50, Accent::Red),
        (100, Accent::Red),
        (200, Accent::Red),
    ];
    for (th, a) in cases {
        c.true_th = th;
        assert_eq!(c.threshold_col(), a, "threshold {th}");
    }
}

#[test]
fn sequences_go_to_every_terminal_unless_skipped_or_current() {
    let mut g = Globals::default();
    assert!(g.set_seq());
    g.update_current = true;
    assert!(!g.set_seq());
    g.update_current = false;
    g.skip_sequences = true;
    assert!(!g.set_seq());
}

#[test]
fn pywal_arguments_leave_everything_to_the_config() {
    let w = WallustArgs::from_pywal(String::from("/tmp/wall.png"));
    assert_eq!(w.file, "/tmp/wall.png");
    assert!(w.dynamic_threshold);
    assert!(w.threshold.is_none() && w.backend.is_none() && w.palette.is_none());
    assert!(!w.no_cache && !w.overwrite_cache && !w.check_contrast);
}

#[test]
fn config_shown_without_templates() {
    let mut c = Config::default();
    c.dir = "/home/u/.config/wallust".to_string();
    c.file = "/home/u/.config/wallust/wallust.toml".to_string();
    c.threshold = Some(20);
    c.check_contrast = Some(true);
    let expected = "Config directory: /home/u/.config/wallust
Config file: /home/u/.config/wallust/wallust.toml
Configuration options:
    backend        = FastResize
    color_space    = Lch
    threshold      = Some(20)
    palette        = Dark
    check_contrast = Some(true)
    saturation     = None
    alpha          = None
Templates:
No entries found.";
    assert_eq!(c.to_string(), expected);
}

#[test]
fn config_shown_with_templates() {
    let mut c = Config::default();
    c.saturation = Some(5);
    let ts = vec![
        ("kitty".to_string(), Fields { template: "kitty.conf".to_string(), target: "~/k.conf".to_string(), pywal: Some(false) }),
        ("zathura".to_string(), Fields { template: "z".to_string(), target: "~/zrc  ".to_string(), pywal: None }),
    ];
    let shown = c.text_with(Some(&ts));
    assert!(shown.contains("    saturation     = Some(5)\n"));
    assert!(shown.ends_with(
        "Templates:\n    kitty\n        template = kitty.conf\n        target   = ~/k.conf\n        pywal = false\n    zathura\n        template = z\n        target   = ~/zrc"
    ));
    let mut m = HashMap::new();
    m.insert(ts[0].0.clone(), ts[0].1.clone());
    c.templates = Some(m);
    assert!(c.to_string().ends_with("        pywal = false"));
    c.templates = Some(HashMap::new());
    assert!(c.to_string().ends_with("Templates:\nNo entries found."));
}

#[test]
fn trim_end_follows_std() {
    for s in ["", "  ", "a b \n\t", "x\u{3000}", "\u{a0}y", "tail\u{85}\u{2028} "] {
        assert_eq!(trim_end(s), s.trim_end(), "{s:?}");
    }
}
