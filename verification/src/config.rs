//! The configuration (`wallust.toml`): where it lives, which defaults fill
//! it, how the command line overrides it, and how the threshold is checked.
//! Reading and parsing the file happen in the program around this library.
use vstd::prelude::*;

use std::collections::HashMap;

use crate::accent::Accent;
use crate::args::{Globals, WallustArgs};
use crate::backends::Backend;
use crate::colorspaces::{ColorSpace, FallbackGenerator};
use crate::filters::Filters;
use crate::backends::backend_name_spec;
use crate::colorspaces::color_space_name_spec;
use crate::filters::filter_name_spec;
use crate::text::{decimal, decimal_spec, join, join_spec, push_char};

verus! {

/// The configuration file and the values that are used internally.
#[derive(Debug, Clone)]
pub struct Config {
    /// Threshold used to tell colours apart, 0 to 100.
    pub threshold: Option<u8>,
    /// The backend named in the file.
    pub backend_user: Option<Backend>,
    /// The palette named in the file.
    pub palette_user: Option<Filters>,
    /// The colour space named in the file.
    pub color_space_user: Option<ColorSpace>,
    /// Alpha template variable.
    pub alpha: Option<u8>,
    /// Whether to fix the contrast of the scheme.
    pub check_contrast: Option<bool>,
    /// Saturation to add, in percent.
    pub saturation: Option<u8>,
    /// How to generate colours when there are not enough.
    pub fallback_generator: Option<FallbackGenerator>,
    /// Named templates.
    pub templates: Option<HashMap<String, Fields>>,
    /// The old `[[entry]]` templates, kept for `wallust migrate`.
    pub entry: Option<Vec<Entries>>,
    /// The configuration directory.
    pub dir: String,
    /// The configuration file.
    pub file: String,
    /// The templates directory.
    pub templates_dir: String,
    /// The threshold actually used (0 means automatic).
    pub true_th: u8,
    /// The backend actually used.
    pub backend: Backend,
    /// The colour space actually used.
    pub color_space: ColorSpace,
    /// The palette actually used.
    pub palette: Filters,
}

/// A named template of the configuration file.
#[derive(Debug, Clone)]
pub struct Fields {
    /// A file inside the templates directory (`src`).
    pub template: String,
    /// Where to write it (`dst`).
    pub target: String,
    /// Whether the template uses the pywal syntax.
    pub pywal: Option<bool>,
}

/// An old-style `[[entry]]` template.
#[derive(Debug, Clone)]
pub struct Entries {
    /// A file inside the configuration directory.
    pub template: String,
    /// Where to write it.
    pub target: String,
    /// Whether the template uses the new engine.
    pub new_engine: Option<bool>,
}

/// What the `wallpaper` template value is made of: the image path or the
/// name of a theme.
pub enum WalStr<'a> {
    Path(&'a str),
    Theme(&'a str),
}

/// The configuration with nothing set.
pub open spec fn default_config_spec(c: Config) -> bool {
    &&& default_settings_spec(c)
    &&& c.dir@ == Seq::<char>::empty()
    &&& c.file@ == Seq::<char>::empty()
    &&& c.templates_dir@ == Seq::<char>::empty()
}

/// Every setting at its default (the paths aside).
pub open spec fn default_settings_spec(c: Config) -> bool {
    &&& c.threshold is None
    &&& c.backend_user is None
    &&& c.palette_user is None
    &&& c.color_space_user is None
    &&& c.alpha is None
    &&& c.check_contrast is None
    &&& c.saturation is None
    &&& c.fallback_generator is None
    &&& c.templates is None
    &&& c.entry is None
    &&& c.true_th == 0
    &&& c.backend == Backend::FastResize
    &&& c.color_space == ColorSpace::Lch
    &&& c.palette == Filters::Dark
}

impl Default for Config {
    fn default() -> (c: Self)
        ensures
            default_config_spec(c),
    {
        Config {
            threshold: None,
            backend_user: None,
            palette_user: None,
            color_space_user: None,
            alpha: None,
            check_contrast: None,
            saturation: None,
            fallback_generator: None,
            templates: None,
            entry: None,
            dir: String::new(),
            file: String::new(),
            templates_dir: String::new(),
            true_th: 0,
            backend: Backend::FastResize,
            color_space: ColorSpace::Lch,
            palette: Filters::Dark,
        }
    }
}

/// A threshold above 100 in the configuration file.
#[derive(Debug, Clone, Copy, PartialEq, Eq, Structural)]
pub struct ThresholdError {
    /// The value that was read.
    pub value: u8,
}

/// Accepts a threshold of the configuration file: absent, or at most 100.
pub fn validate_threshold(value: Option<u8>) -> (r: Result<Option<u8>, ThresholdError>)
    ensures
        r == (match value {
            Some(v) if v > 100 => Err(ThresholdError { value: v }),
            _ => Ok(value),
        }),
{
    match value {
        None => Ok(None),
        Some(v) => {
            if v <= 100 {
                Ok(Some(v))
            } else {
                Err(ThresholdError { value: v })
            }
        },
    }
}

/// Where the configuration lives.
#[derive(Debug, Clone)]
pub struct ConfigPaths {
    /// The configuration directory.
    pub dir: String,
    /// The configuration file.
    pub file: String,
    /// The templates directory.
    pub templates_dir: String,
}

/// Why the configuration cannot be set up.
#[derive(Debug, Clone)]
pub enum ConfigError {
    /// No `--config-dir` and the platform has no configuration directory.
    NoConfigDir,
    /// `--config-file` names a file that does not exist.
    MissingConfigFile(String),
    /// `--templates-dir` names a directory that does not exist.
    MissingTemplatesDir(String),
}

/// The configuration directory: `--config-dir`, else `<platform>/wallust`.
pub open spec fn config_dir_spec(g: Globals, platform_config_dir: Option<String>) -> Option<Seq<char>> {
    match g.config_dir {
        Some(d) => Some(d@),
        None => match platform_config_dir {
            Some(p) => Some(join_spec(p@, "wallust"@)),
            None => None,
        },
    }
}

/// The configuration file: `--config-file`, else `<dir>/wallust.toml`.
pub open spec fn config_file_spec(g: Globals, dir: Seq<char>) -> Seq<char> {
    match g.config_file {
        Some(f) => f@,
        None => join_spec(dir, "wallust.toml"@),
    }
}

/// The templates directory: `--templates-dir`, else `<dir>/templates`.
pub open spec fn templates_dir_spec(g: Globals, dir: Seq<char>) -> Seq<char> {
    match g.templates_dir {
        Some(t) => t@,
        None => join_spec(dir, "templates"@),
    }
}

/// Where the configuration lives, given the platform's configuration
/// directory (`None` when the platform has none).
pub fn config_paths(g: &Globals, platform_config_dir: Option<String>) -> (r: Result<ConfigPaths, ConfigError>)
    ensures
        config_dir_spec(*g, platform_config_dir) is None <==> r is Err,
        r matches Err(e) ==> e is NoConfigDir,
        r matches Ok(p) ==> {
            &&& p.dir@ == config_dir_spec(*g, platform_config_dir)->0
            &&& p.file@ == config_file_spec(*g, p.dir@)
            &&& p.templates_dir@ == templates_dir_spec(*g, p.dir@)
        },
{
    let dir = match &g.config_dir {
        Some(d) => d.clone(),
        None => match &platform_config_dir {
            Some(p) => join(p.as_str(), "wallust"),
            None => return Err(ConfigError::NoConfigDir),
        },
    };
    let file = match &g.config_file {
        Some(f) => f.clone(),
        None => join(dir.as_str(), "wallust.toml"),
    };
    let templates_dir = match &g.templates_dir {
        Some(t) => t.clone(),
        None => join(dir.as_str(), "templates"),
    };
    Ok(ConfigPaths { dir, file, templates_dir })
}

/// The configuration after the command line of `run` overrides it.
pub open spec fn customs_cli_spec(c: Config, cli: WallustArgs) -> Config {
    Config {
        backend: match cli.backend { Some(b) => b, None => c.backend },
        color_space: match cli.colorspace { Some(x) => x, None => c.color_space },
        palette: match cli.palette { Some(f) => f, None => c.palette },
        threshold: match cli.threshold { Some(t) => Some(t as u8), None => c.threshold },
        alpha: match cli.alpha { Some(a) => Some(a as u8), None => c.alpha },
        check_contrast: if cli.check_contrast { Some(true) } else { c.check_contrast },
        saturation: match cli.saturation { Some(s) => Some(s as u8), None => c.saturation },
        fallback_generator: match cli.fallback_generator {
            Some(g) => Some(g),
            None => c.fallback_generator,
        },
        ..c
    }
}

/// Settles the configuration: the paths, an automatic threshold, and the
/// file's backend, colour space and palette or their defaults.
pub open spec fn settle_spec(c: Config, paths: ConfigPaths) -> Config {
    Config {
        dir: paths.dir,
        file: paths.file,
        templates_dir: paths.templates_dir,
        true_th: 0,
        backend: match c.backend_user { Some(b) => b, None => Backend::FastResize },
        color_space: match c.color_space_user { Some(x) => x, None => ColorSpace::Lch },
        palette: match c.palette_user { Some(f) => f, None => Filters::Dark },
        ..c
    }
}

impl Config {
    /// The colour in which the threshold in use is shown: yellow for 1,
    /// cyan for 2, green up to 10, blue up to 49, red above.
    pub fn threshold_col(&self) -> (a: Accent)
        ensures
            a == (if self.true_th == 1 {
                Accent::Yellow
            } else if self.true_th == 2 {
                Accent::Cyan
            } else if 3 <= self.true_th <= 10 {
                Accent::Green
            } else if 11 <= self.true_th <= 49 {
                Accent::Blue
            } else {
                Accent::Red
            }),
    {
        let t = self.true_th;
        if t == 1 {
            Accent::Yellow
        } else if t == 2 {
            Accent::Cyan
        } else if 3 <= t && t <= 10 {
            Accent::Green
        } else if 11 <= t && t <= 49 {
            Accent::Blue
        } else {
            Accent::Red
        }
    }

    /// Sets up the configuration. `platform_config_dir` is the platform's
    /// configuration directory, `config_exists` and `templates_exists` tell
    /// whether the file and the templates directory of `config_paths` exist,
    /// and `loaded` is the parsed file (`None` when it was not read). A
    /// missing file gives the default configuration.
    pub fn new(
        g: &Globals,
        platform_config_dir: Option<String>,
        config_exists: bool,
        templates_exists: bool,
        loaded: Option<Config>,
    ) -> (r: Result<Config, ConfigError>)
        ensures
            config_dir_spec(*g, platform_config_dir) is None ==> r matches Err(ConfigError::NoConfigDir),
            config_dir_spec(*g, platform_config_dir) is Some ==> {
                let dir = config_dir_spec(*g, platform_config_dir)->0;
                let file = config_file_spec(*g, dir);
                let tdir = templates_dir_spec(*g, dir);
                if g.config_file is Some && !config_exists {
                    r matches Err(ConfigError::MissingConfigFile(f)) && f@ == file
                } else if g.templates_dir is Some && !templates_exists {
                    r matches Err(ConfigError::MissingTemplatesDir(t)) && t@ == tdir
                } else {
                    r matches Ok(c) && {
                        &&& c.dir@ == dir
                        &&& c.file@ == file
                        &&& c.templates_dir@ == tdir
                        &&& c.true_th == 0
                        &&& if config_exists && loaded is Some {
                            c == settle_spec(loaded->0, ConfigPaths { dir: c.dir, file: c.file, templates_dir: c.templates_dir })
                        } else {
                            default_settings_spec(c)
                        }
                    }
                }
            },
    {
        let paths = match config_paths(g, platform_config_dir) {
            Ok(p) => p,
            Err(e) => return Err(e),
        };
        if g.config_file.is_some() && !config_exists {
            return Err(ConfigError::MissingConfigFile(paths.file));
        }
        if g.templates_dir.is_some() && !templates_exists {
            return Err(ConfigError::MissingTemplatesDir(paths.templates_dir));
        }
        let mut ret = if config_exists {
            match loaded {
                Some(c) => c,
                None => Config::default(),
            }
        } else {
            Config::default()
        };
        ret.templates_dir = paths.templates_dir;
        ret.dir = paths.dir;
        ret.file = paths.file;
        ret.true_th = 0;
        ret.backend = match ret.backend_user {
            Some(b) => b,
            None => Backend::default(),
        };
        ret.color_space = match ret.color_space_user {
            Some(x) => x,
            None => ColorSpace::default(),
        };
        ret.palette = match ret.palette_user {
            Some(f) => f,
            None => Filters::default(),
        };
        Ok(ret)
    }

    /// Lets the arguments of `run` override the configuration.
    pub fn customs_cli(&mut self, cli: &WallustArgs)
        ensures
            *final(self) == customs_cli_spec(*old(self), *cli),
    {
        if let Some(b) = cli.backend {
            self.backend = b;
        }
        if let Some(col) = cli.colorspace {
            self.color_space = col;
        }
        if let Some(f) = cli.palette {
            self.palette = f;
        }
        if let Some(t) = cli.threshold {
            self.threshold = Some(t as u8);
        }
        if let Some(a) = cli.alpha {
            self.alpha = Some(a as u8);
        }
        if cli.check_contrast {
            self.check_contrast = Some(cli.check_contrast);
        }
        if let Some(sat) = cli.saturation {
            self.saturation = Some(sat as u8);
        }
        if let Some(g) = cli.fallback_generator {
            self.fallback_generator = Some(g);
        }
    }
}

/// Every flag given on the command line of `run` wins over the
/// configuration: the backend, colour space, palette and fallback generator
/// given, the threshold, alpha and saturation given (as bytes), and the
/// contrast check when asked for. The paths, the templates, the old entries
/// and what the file named stay as they were.
pub proof fn customs_cli_sets_given(c: Config, cli: WallustArgs)
    ensures
        ({
            let r = customs_cli_spec(c, cli);
            &&& cli.backend matches Some(b) ==> r.backend == b
            &&& cli.colorspace matches Some(x) ==> r.color_space == x
            &&& cli.palette matches Some(f) ==> r.palette == f
            &&& cli.threshold matches Some(t) ==> r.threshold == Some(t as u8)
            &&& cli.alpha matches Some(a) ==> r.alpha == Some(a as u8)
            &&& cli.check_contrast ==> r.check_contrast == Some(true)
            &&& cli.saturation matches Some(x) ==> r.saturation == Some(x as u8)
            &&& cli.fallback_generator matches Some(g) ==> r.fallback_generator == Some(g)
            &&& r.templates_dir == c.templates_dir
            &&& r.entry == c.entry
            &&& r.backend_user == c.backend_user
            &&& r.color_space_user == c.color_space_user
            &&& r.palette_user == c.palette_user
        }),
{
}

/// Settling a loaded configuration file keeps every setting read from it
/// (threshold, alpha, contrast check, saturation, fallback generator,
/// templates, old entries, and the backend, colour space and palette it
/// names), puts in the paths, starts from an automatic threshold, and uses
/// the named backend, colour space and palette, or `FastResize`, `Lch` and
/// `Dark` when it names none.
pub proof fn loading_keeps_file_settings(f: Config, p: ConfigPaths)
    ensures
        ({
            let c = settle_spec(f, p);
            &&& c.threshold == f.threshold
            &&& c.alpha == f.alpha
            &&& c.check_contrast == f.check_contrast
            &&& c.saturation == f.saturation
            &&& c.fallback_generator == f.fallback_generator
            &&& c.templates == f.templates
            &&& c.entry == f.entry
            &&& c.backend_user == f.backend_user
            &&& c.color_space_user == f.color_space_user
            &&& c.palette_user == f.palette_user
            &&& c.dir == p.dir
            &&& c.file == p.file
            &&& c.templates_dir == p.templates_dir
            &&& c.true_th == 0
            &&& c.backend == match f.backend_user {
                Some(b) => b,
                None => Backend::FastResize,
            }
            &&& c.color_space == match f.color_space_user {
                Some(x) => x,
                None => ColorSpace::Lch,
            }
            &&& c.palette == match f.palette_user {
                Some(x) => x,
                None => Filters::Dark,
            }
        }),
{
}

/// Overriding the configuration with the same command line twice changes
/// nothing more than doing it once.
pub proof fn customs_cli_idempotent(c: Config, cli: WallustArgs)
    ensures
        customs_cli_spec(customs_cli_spec(c, cli), cli) == customs_cli_spec(c, cli),
{
}

/// What the command line does not set stays as the configuration file had it.
pub proof fn customs_cli_keeps_unset(c: Config, cli: WallustArgs)
    ensures
        cli.backend is None ==> customs_cli_spec(c, cli).backend == c.backend,
        cli.colorspace is None ==> customs_cli_spec(c, cli).color_space == c.color_space,
        cli.palette is None ==> customs_cli_spec(c, cli).palette == c.palette,
        cli.threshold is None ==> customs_cli_spec(c, cli).threshold == c.threshold,
        cli.alpha is None ==> customs_cli_spec(c, cli).alpha == c.alpha,
        !cli.check_contrast ==> customs_cli_spec(c, cli).check_contrast == c.check_contrast,
        cli.saturation is None ==> customs_cli_spec(c, cli).saturation == c.saturation,
        cli.fallback_generator is None ==> customs_cli_spec(c, cli).fallback_generator == c.fallback_generator,
        customs_cli_spec(c, cli).dir == c.dir,
        customs_cli_spec(c, cli).file == c.file,
        customs_cli_spec(c, cli).templates == c.templates,
        customs_cli_spec(c, cli).true_th == c.true_th,
{
}

/// `{:?}` of an `Option<u8>`: `Some(20)` or `None`.
pub open spec fn debug_u8_spec(o: Option<u8>) -> Seq<char> {
    match o {
        Some(n) => "Some("@ + decimal_spec(n as nat) + ")"@,
        None => "None"@,
    }
}

/// `{:?}` of an `Option<bool>`: `Some(true)`, `Some(false)` or `None`.
pub open spec fn debug_bool_spec(o: Option<bool>) -> Seq<char> {
    match o {
        Some(true) => "Some(true)"@,
        Some(false) => "Some(false)"@,
        None => "None"@,
    }
}

fn debug_u8(o: Option<u8>) -> (s: String)
    ensures
        s@ == debug_u8_spec(o),
{
    match o {
        Some(n) => {
            let mut s = String::from_str("Some(");
            s.append(decimal(n as u64).as_str());
            s.append(")");
            s
        },
        None => String::from_str("None"),
    }
}

fn debug_bool(o: Option<bool>) -> (s: String)
    ensures
        s@ == debug_bool_spec(o),
{
    match o {
        Some(true) => String::from_str("Some(true)"),
        Some(false) => String::from_str("Some(false)"),
        None => String::from_str("None"),
    }
}

/// Whether `char::is_whitespace` holds of `c`: the Unicode `White_Space`
/// characters.
pub open spec fn is_white_space(c: char) -> bool {
    ||| '\u{9}' <= c <= '\u{d}'
    ||| c == ' '
    ||| c == '\u{85}'
    ||| c == '\u{a0}'
    ||| c == '\u{1680}'
    ||| '\u{2000}' <= c <= '\u{200a}'
    ||| c == '\u{2028}'
    ||| c == '\u{2029}'
    ||| c == '\u{202f}'
    ||| c == '\u{205f}'
    ||| c == '\u{3000}'
}

fn white_space(c: char) -> (r: bool)
    ensures
        r == is_white_space(c),
{
    ('\u{9}' <= c && c <= '\u{d}') || c == ' ' || c == '\u{85}' || c == '\u{a0}' || c == '\u{1680}'
        || ('\u{2000}' <= c && c <= '\u{200a}') || c == '\u{2028}' || c == '\u{2029}' || c == '\u{202f}'
        || c == '\u{205f}' || c == '\u{3000}'
}

/// `str::trim_end`: `s` without its trailing white space.
pub open spec fn trim_end_spec(s: Seq<char>) -> Seq<char>
    decreases s.len(),
{
    if s.len() > 0 && is_white_space(s.last()) {
        trim_end_spec(s.drop_last())
    } else {
        s
    }
}

proof fn lemma_trim_end_prefix(s: Seq<char>, j: int)
    requires
        0 <= j <= s.len(),
        forall|k: int| j <= k < s.len() ==> is_white_space(#[trigger] s[k]),
    ensures
        trim_end_spec(s) == trim_end_spec(s.take(j)),
    decreases s.len() - j,
{
    if j < s.len() {
        assert(s.drop_last().take(j) =~= s.take(j));
        lemma_trim_end_prefix(s.drop_last(), j);
    } else {
        assert(s.take(j) =~= s);
    }
}

/// Trimming keeps a beginning of the text that does not end in white space,
/// and cuts off only white space.
pub proof fn trim_end_cuts_trailing_white_space(s: Seq<char>)
    ensures
        trim_end_spec(s).len() <= s.len(),
        trim_end_spec(s) == s.take(trim_end_spec(s).len() as int),
        trim_end_spec(s).len() == 0 || !is_white_space(trim_end_spec(s).last()),
        forall|i: int| trim_end_spec(s).len() <= i < s.len() ==> is_white_space(#[trigger] s[i]),
    decreases s.len(),
{
    if s.len() > 0 && is_white_space(s.last()) {
        trim_end_cuts_trailing_white_space(s.drop_last());
        let t = trim_end_spec(s.drop_last());
        assert(s.drop_last().take(t.len() as int) =~= s.take(t.len() as int));
        assert forall|i: int| t.len() <= i < s.len() implies is_white_space(#[trigger] s[i]) by {
            if i < s.len() - 1 {
                assert(s.drop_last()[i] == s[i]);
            }
        }
    } else {
        assert(s.take(s.len() as int) =~= s);
    }
}

/// `text.trim_end()`.
pub fn trim_end(text: &str) -> (r: String)
    ensures
        r@ == trim_end_spec(text@),
{
    let n = text.unicode_len();
    let mut j: usize = n;
    while j > 0 && white_space(text.get_char(j - 1))
        invariant
            j <= n,
            n == text@.len(),
            forall|k: int| j <= k < n ==> is_white_space(#[trigger] text@[k]),
        decreases j,
    {
        j -= 1;
    }
    proof {
        lemma_trim_end_prefix(text@, j as int);
    }
    let mut out = String::new();
    let mut i: usize = 0;
    while i < j
        invariant
            i <= j,
            j <= n,
            n == text@.len(),
            out@ == text@.take(i as int),
        decreases j - i,
    {
        push_char(&mut out, text.get_char(i));
        i += 1;
        assert(out@ =~= text@.take(i as int));
    }
    out
}

/// The lines that describe one template: its name, `template`, `target`,
/// and `pywal` when it is set.
pub open spec fn template_lines(name: Seq<char>, f: Fields) -> Seq<char> {
    "    "@ + name + "\n"@ + "        template = "@ + f.template@ + "\n"@ + "        target   = "@ + f.target@
        + "\n"@ + match f.pywal {
        Some(true) => "        pywal = true\n"@,
        Some(false) => "        pywal = false\n"@,
        None => Seq::empty(),
    }
}

/// The lines of the templates, in the order given.
pub open spec fn templates_lines(ts: Seq<(String, Fields)>) -> Seq<char>
    decreases ts.len(),
{
    if ts.len() == 0 {
        Seq::empty()
    } else {
        templates_lines(ts.drop_last()) + template_lines(ts.last().0@, ts.last().1)
    }
}

/// The `Templates:` part: the templates' lines without the trailing white
/// space, or `No entries found.` when that leaves nothing.
pub open spec fn templates_part(ts: Option<Seq<(String, Fields)>>) -> Seq<char> {
    let t = match ts {
        Some(ts) => trim_end_spec(templates_lines(ts)),
        None => Seq::empty(),
    };
    if t.len() == 0 {
        "No entries found."@
    } else {
        t
    }
}

/// What `wallust` shows of a configuration, its templates listed in the
/// order `ts` (`None` when it has none).
pub open spec fn config_text(c: Config, ts: Option<Seq<(String, Fields)>>) -> Seq<char> {
    "Config directory: "@ + c.dir@ + "\nConfig file: "@ + c.file@ + "\nConfiguration options:\n    backend        = "@
        + backend_name_spec(c.backend) + "\n    color_space    = "@ + color_space_name_spec(c.color_space)
        + "\n    threshold      = "@ + debug_u8_spec(c.threshold) + "\n    palette        = "@
        + filter_name_spec(c.palette) + "\n    check_contrast = "@ + debug_bool_spec(c.check_contrast)
        + "\n    saturation     = "@ + debug_u8_spec(c.saturation) + "\n    alpha          = "@
        + debug_u8_spec(c.alpha) + "\nTemplates:\n"@ + templates_part(ts)
}

/// Whether `ts` lists the templates of `m`, each once, in some order.
pub open spec fn lists_templates(ts: Seq<(String, Fields)>, m: Map<String, Fields>) -> bool {
    &&& ts.len() == m.len()
    &&& forall|i: int, j: int| 0 <= i < j < ts.len() ==> #[trigger] ts[i].0 != #[trigger] ts[j].0
    &&& forall|i: int| 0 <= i < ts.len() ==> m.contains_key(#[trigger] ts[i].0) && m[ts[i].0] == ts[i].1
}

/// The templates of the map, as `HashMap::iter` walks them, cloned.
/// Trusted: `iter` visits every entry of the map once, so the list has one
/// pair per key, with the key's value. Its order is the hash map's and is not
/// stated.
#[verifier::external_body]
fn template_listing(m: &HashMap<String, Fields>) -> (r: Vec<(String, Fields)>)
    ensures
        lists_templates(r@, m@),
{
    m.iter().map(|(k, v)| (k.clone(), v.clone())).collect()
}

impl Config {
    /// What `wallust` shows of this configuration, its templates listed in
    /// the order of `templates` (`None` when it has none).
    pub fn text_with(&self, templates: Option<&Vec<(String, Fields)>>) -> (r: String)
        ensures
            r@ == config_text(*self, match templates {
                Some(ts) => Some(ts@),
                None => None,
            }),
    {
        let temps = match templates {
            Some(ts) => {
                let mut s = String::new();
                let mut i: usize = 0;
                while i < ts.len()
                    invariant
                        i <= ts.len(),
                        s@ == templates_lines(ts@.take(i as int)),
                    decreases ts.len() - i,
                {
                    let (name, f) = (&ts[i].0, &ts[i].1);
                    s.append("    ");
                    s.append(name.as_str());
                    s.append("\n");
                    s.append("        template = ");
                    s.append(f.template.as_str());
                    s.append("\n");
                    s.append("        target   = ");
                    s.append(f.target.as_str());
                    s.append("\n");
                    match f.pywal {
                        Some(true) => s.append("        pywal = true\n"),
                        Some(false) => s.append("        pywal = false\n"),
                        None => {},
                    }
                    proof {
                        assert(ts@.take(i + 1).drop_last() =~= ts@.take(i as int));
                    }
                    i += 1;
                }
                proof {
                    assert(ts@.take(ts@.len() as int) =~= ts@);
                }
                trim_end(s.as_str())
            },
            None => String::new(),
        };
        let templates_text = if temps.unicode_len() == 0 {
            String::from_str("No entries found.")
        } else {
            temps
        };
        let mut r = String::from_str("Config directory: ");
        r.append(self.dir.as_str());
        r.append("\nConfig file: ");
        r.append(self.file.as_str());
        r.append("\nConfiguration options:\n    backend        = ");
        r.append(self.backend.name().as_str());
        r.append("\n    color_space    = ");
        r.append(self.color_space.name().as_str());
        r.append("\n    threshold      = ");
        r.append(debug_u8(self.threshold).as_str());
        r.append("\n    palette        = ");
        r.append(self.palette.name().as_str());
        r.append("\n    check_contrast = ");
        r.append(debug_bool(self.check_contrast).as_str());
        r.append("\n    saturation     = ");
        r.append(debug_u8(self.saturation).as_str());
        r.append("\n    alpha          = ");
        r.append(debug_u8(self.alpha).as_str());
        r.append("\nTemplates:\n");
        r.append(templates_text.as_str());
        r
    }

    /// What `wallust` shows of this configuration (its `Display`). The
    /// templates come in the order in which the hash map is walked.
    pub fn to_string(&self) -> (r: String)
        ensures
            self.templates is None ==> r@ == config_text(*self, None),
            self.templates matches Some(m) ==> exists|ts: Seq<(String, Fields)>|
                lists_templates(ts, m@) && r@ == config_text(*self, Some(ts)),
    {
        match &self.templates {
            Some(m) => {
                let ts = template_listing(m);
                self.text_with(Some(&ts))
            },
            None => self.text_with(None),
        }
    }
}

} // verus!
