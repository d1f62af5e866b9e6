use wallust::backends::Backend;
use wallust::cache::{base36, fnv1a, Cache, IsCached, CACHE_VER};
use wallust::colorspaces::ColorSpace;
use wallust::config::Config;
use wallust::filters::Filters;
use wallust::text::{decimal, join};

#[test]
fn fnv1a_of_empty_is_offset_basis() {
    assert_eq!(fnv1a(&[]), 2166136261);
}

#[test]
fn fnv1a_known_values() {
    assert_eq!(fnv1a(b"a"), 0xe40c292c);
    assert_eq!(fnv1a(b"foobar"), 0xbf9cf968);
}

#[test]
fn base36_examples() {
    assert_eq!(base36(0), "0");
    assert_eq!(base36(9), "9");
    assert_eq!(base36(10), "a");
    assert_eq!(base36(35), "z");
    assert_eq!(base36(36), "10");
    assert_eq!(base36(1295), "zz");
    assert_eq!(base36(u32::MAX), "1z141z3");
}

#[test]
fn base36_decodes_back() {
    for n in [0u32, 1, 35, 36, 37, 123456, 2166136261, u32::MAX] {
        assert_eq!(u32::from_str_radix(&base36(n), 36).unwrap(), n);
    }
}

#[test]
fn decimal_examples() {
    assert_eq!(decimal(0), "0");
    assert_eq!(decimal(7), "7");
    assert_eq!(decimal(100), "100");
    assert_eq!(decimal(u64::MAX), u64::MAX.to_string());
}

#[test]
fn join_examples() {
    assert_eq!(join("/home/u/.cache", "wallust"), "/home/u/.cache/wallust");
    assert_eq!(join("/home/u/.cache/", "wallust"), "/home/u/.cache/wallust");
    assert_eq!(join("", "wallust"), "wallust");
    assert_eq!(join("/a", "/b"), "/b");
}

fn config(backend: Backend, cs: ColorSpace, th: u8, palette: Filters) -> Config {
    let mut c = Config::default();
    c.backend = backend;
    c.color_space = cs;
    c.true_th = th;
    c.palette = palette;
    c
}

#[test]
fn cache_paths_follow_the_settings() {
    let image = b"some image bytes";
    let hash = base36(fnv1a(image));
    let c = config(Backend::FastResize, ColorSpace::Lch, 0, Filters::Dark);
    let cache = Cache::new(image, &c, "/tmp/cache");
    let dir = format!("/tmp/cache/wallust/{hash}_{CACHE_VER}");
    assert_eq!(cache.path, "/tmp/cache/wallust");
    assert_eq!(cache.name, dir);
    assert_eq!(cache.back, format!("{dir}/FastResize"));
    assert_eq!(cache.cs, format!("{dir}/FastResize_Lch_auto"));
    assert_eq!(cache.palette, format!("{dir}/FastResize_Lch_auto_Dark"));
    assert_eq!(cache.preset, None);
}

#[test]
fn cache_paths_with_a_threshold() {
    let c = config(Backend::Wal, ColorSpace::LabMixed, 20, Filters::HardDark16);
    let cache = Cache::new(b"x", &c, "/c");
    assert!(cache.cs.ends_with("/Wal_LabMixed_20"));
    assert!(cache.palette.ends_with("/Wal_LabMixed_20_HardDark16"));
}

#[test]
fn darkcomp_and_softlight16_have_their_own_cache_names() {
    let a = Cache::new(b"x", &config(Backend::Full, ColorSpace::Lab, 5, Filters::DarkComp), "/c");
    let b = Cache::new(b"x", &config(Backend::Full, ColorSpace::Lab, 5, Filters::SoftLight16), "/c");
    assert_ne!(a.palette, b.palette);
    assert!(a.palette.ends_with("_DarkComp"));
    assert!(b.palette.ends_with("_SoftLight16"));
}

#[test]
fn same_contents_same_directory() {
    let c = Config::default();
    assert_eq!(Cache::new(b"abc", &c, "/c").name, Cache::new(b"abc", &c, "/c").name);
    assert_ne!(Cache::new(b"abc", &c, "/c").name, Cache::new(b"abd", &c, "/c").name);
}

#[test]
fn is_cached_all_branches() {
    let mut cache = Cache::new(b"x", &Config::default(), "/c");
    assert_eq!(cache.is_cached_all(true, true, true), IsCached::BackendnCSnPalette);
    assert_eq!(cache.is_cached_all(true, true, false), IsCached::BackendnCS);
    assert_eq!(cache.is_cached_all(true, false, true), IsCached::Backend);
    assert_eq!(cache.is_cached_all(true, false, false), IsCached::Backend);
    assert_eq!(cache.is_cached_all(false, true, true), IsCached::Nothing);
    cache.preset = Some("/c/preset".to_string());
    assert_eq!(cache.is_cached_all(true, true, true), IsCached::Preset);
    assert_eq!(cache.is_cached_all(false, false, false), IsCached::Preset);
}

#[test]
fn backend_cache_text() {
    let cache = Cache::new(b"x", &Config::default(), "/c");
    assert_eq!(cache.write_backend(&[]), "[]");
    assert_eq!(cache.write_backend(&[0, 12, 255]), "[0,12,255]");
}

#[test]
fn backend_cache_roundtrip() {
    let cache = Cache::new(b"x", &Config::default(), "/c");
    let bytes: Vec<u8> = (0..=255u8).chain([7, 7, 0]).collect();
    let text = cache.write_backend(&bytes);
    assert_eq!(cache.read_backend(&text).unwrap(), bytes);
}

#[test]
fn backend_cache_read_errors() {
    let cache = Cache::new(b"x", &Config::default(), "/c");
    assert!(cache.read_backend("[1,2,").is_err());
    assert!(cache.read_backend("[256]").is_err());
    assert!(cache.read_backend("{}").is_err());
    assert_eq!(cache.read_backend(" [ 1 , 2 ] ").unwrap(), vec![1, 2]);
}
