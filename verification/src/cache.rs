//! Cache naming: content hashing (FNV-1a) and base-36 file names.
use vstd::prelude::*;

use crate::config::Config;
use crate::text::{decimal, decimal_spec, lemma_decimal, lemma_decimal_injective, is_decimal_char, join, join_spec, push_char, reversed, string_from_reversed};
use crate::backends::{backend_name_spec, Backend};
use crate::colorspaces::{color_space_name_spec, ColorSpace};
use crate::filters::{filter_name_spec, Filters};

verus! {

/// Offset basis of the 32-bit FNV-1a hash.
pub const FNV_OFFSET: u32 = 2166136261;

/// Prime of the 32-bit FNV-1a hash.
pub const FNV_PRIME: u32 = 16777619;

/// One FNV-1a round: xor the byte in, then multiply modulo 2^32.
pub open spec fn fnv1a_step(hash: u32, byte: u8) -> u32 {
    (hash ^ (byte as u32)).wrapping_mul(FNV_PRIME)
}

/// The 32-bit FNV-1a hash of `bytes`, folded from the left.
pub open spec fn fnv1a_spec(bytes: Seq<u8>) -> u32
    decreases bytes.len(),
{
    if bytes.len() == 0 {
        FNV_OFFSET
    } else {
        fnv1a_step(fnv1a_spec(bytes.drop_last()), bytes.last())
    }
}

/// 32-bit FNV-1a hash of `bytes`.
pub fn fnv1a(bytes: &[u8]) -> (hash: u32)
    ensures
        hash == fnv1a_spec(bytes@),
{
    let mut hash: u32 = FNV_OFFSET;
    let mut i: usize = 0;
    while i < bytes.len()
        invariant
            i <= bytes.len(),
            hash == fnv1a_spec(bytes@.take(i as int)),
        decreases bytes.len() - i,
    {
        assert(bytes@.take(i + 1).drop_last() =~= bytes@.take(i as int));
        hash ^= bytes[i] as u32;
        hash = hash.wrapping_mul(FNV_PRIME);
        i += 1;
    }
    assert(bytes@.take(i as int) =~= bytes@);
    hash
}

/// The hash folds in every byte, in order: the hash of no bytes is
/// 2166136261, and the hash of `s` followed by `x` is the hash of `s` xored
/// with `x`, times 16777619, modulo 2^32. So two files that differ only in
/// their last byte get different hashes.
pub proof fn fnv1a_folds_every_byte(s: Seq<u8>, x: u8, y: u8)
    ensures
        fnv1a_spec(Seq::empty()) == 2166136261u32,
        fnv1a_spec(s.push(x)) as int == ((fnv1a_spec(s) ^ (x as u32)) as int * 16777619) % 0x1_0000_0000,
        x != y ==> fnv1a_spec(s.push(x)) != fnv1a_spec(s.push(y)),
{
    assert(s.push(x).drop_last() =~= s);
    assert(s.push(y).drop_last() =~= s);
    let h = fnv1a_spec(s);
    let a = h ^ (x as u32);
    let b = h ^ (y as u32);
    assert(x != y ==> a != b) by (bit_vector)
        requires
            a == h ^ (x as u32),
            b == h ^ (y as u32),
    ;
    assert(a.wrapping_mul(16777619u32).wrapping_mul(899433627u32) == a) by (bit_vector);
    assert(b.wrapping_mul(16777619u32).wrapping_mul(899433627u32) == b) by (bit_vector);
}

/// The base-36 digit character of `d` (`d < 36`): `0`-`9`, then `a`-`z`
/// (what `char::from_digit(d, 36)` gives).
pub open spec fn base36_digit(d: nat) -> char {
    if d < 10 {
        ((d + 48) as u8) as char
    } else {
        ((d - 10 + 97) as u8) as char
    }
}

/// The numeric value of a base-36 digit character (inverse of `base36_digit`).
pub open spec fn base36_digit_value(c: char) -> nat {
    if '0' <= c && c <= '9' {
        (c as nat - 48) as nat
    } else {
        (c as nat - 97 + 10) as nat
    }
}

/// The base-36 representation of `n`, most significant digit first, without
/// leading zeros (`0` is written `"0"`).
pub open spec fn base36_spec(n: nat) -> Seq<char>
    decreases n,
{
    if n < 36 {
        seq![base36_digit(n)]
    } else {
        base36_spec(n / 36).push(base36_digit(n % 36))
    }
}

/// The number that a sequence of base-36 digits denotes.
pub open spec fn base36_value(s: Seq<char>) -> nat
    decreases s.len(),
{
    if s.len() == 0 {
        0
    } else {
        base36_value(s.drop_last()) * 36 + base36_digit_value(s.last())
    }
}

/// A character among `0`-`9` and `a`-`z`.
pub open spec fn is_base36_char(c: char) -> bool {
    ('0' <= c && c <= '9') || ('a' <= c && c <= 'z')
}

proof fn lemma_base36_digit_roundtrip(d: nat)
    requires
        d < 36,
    ensures
        base36_digit_value(base36_digit(d)) == d,
        is_base36_char(base36_digit(d)),
{
}

/// Base-36 encoding of `n`, as used for the names of the cache directories.
pub fn base36(n: u32) -> (s: String)
    ensures
        s@ == base36_spec(n as nat),
{
    let mut digits: Vec<char> = Vec::new();
    let mut m: u32 = n;
    loop
        invariant_except_break
            base36_spec(n as nat) == base36_spec(m as nat) + reversed(digits@),
            m == 0 ==> digits@.len() == 0 && n == 0,
        ensures
            base36_spec(n as nat) == reversed(digits@),
        decreases m,
    {
        let d = m % 36;
        let c = if d < 10 {
            ((d + 48) as u8) as char
        } else {
            ((d - 10 + 97) as u8) as char
        };
        assert(c == base36_digit(d as nat));
        assert(reversed(digits@.push(c)) =~= seq![c] + reversed(digits@));
        m = m / 36;
        digits.push(c);
        if m == 0 {
            assert(base36_spec(n as nat) =~= reversed(digits@));
            break;
        }
        assert(base36_spec(n as nat) =~= base36_spec(m as nat) + reversed(digits@));
    }
    string_from_reversed(&digits)
}

/// Decoding the base-36 name of a number gives the number back: the encoding
/// loses nothing, so two different hashes never share a cache directory name.
pub proof fn base36_roundtrip(n: nat)
    ensures
        base36_value(base36_spec(n)) == n,
    decreases n,
{
    if n < 36 {
        lemma_base36_digit_roundtrip(n);
        assert(base36_spec(n).drop_last() =~= Seq::<char>::empty());
        assert(base36_value(Seq::<char>::empty()) == 0);
    } else {
        base36_roundtrip(n / 36);
        lemma_base36_digit_roundtrip(n % 36);
        assert(base36_spec(n).drop_last() =~= base36_spec(n / 36));
        assert(base36_spec(n).last() == base36_digit(n % 36));
        assert(n == (n / 36) * 36 + n % 36);
    }
}

/// Different numbers get different base-36 names.
pub proof fn base36_injective(a: nat, b: nat)
    requires
        base36_spec(a) == base36_spec(b),
    ensures
        a == b,
{
    base36_roundtrip(a);
    base36_roundtrip(b);
}

/// A base-36 name is made of `0`-`9` and `a`-`z` only, is never empty, and
/// starts with `0` only when it is the name of zero.
pub proof fn base36_well_formed(n: nat)
    ensures
        base36_spec(n).len() >= 1,
        forall|i: int| 0 <= i < base36_spec(n).len() ==> is_base36_char(#[trigger] base36_spec(n)[i]),
        base36_spec(n)[0] == '0' ==> n == 0,
    decreases n,
{
    if n < 36 {
        lemma_base36_digit_roundtrip(n);
    } else {
        base36_well_formed(n / 36);
        lemma_base36_digit_roundtrip(n % 36);
        let s = base36_spec(n);
        assert forall|i: int| 0 <= i < s.len() implies is_base36_char(#[trigger] s[i]) by {
            if i < s.len() - 1 {
                assert(s[i] == base36_spec(n / 36)[i]);
            }
        }
    }
}

/// Cache version: bumped when the scheme generation changes, so that old
/// caches are not read again.
pub const CACHE_VER: &'static str = "1.7";

/// The cache files of one image and one configuration.
#[derive(Debug, Clone)]
pub struct Cache {
    /// The cache directory (`<cache>/wallust`).
    pub path: String,
    /// The backend file; it does not depend on the threshold.
    pub back: String,
    /// The colour space file, which depends on the backend and the threshold.
    pub cs: String,
    /// The palette file, which depends on the colour space and the threshold.
    pub palette: String,
    /// The preset file, if any.
    pub preset: Option<String>,
    /// The directory of this image (`<hash>_<version>`).
    pub name: String,
}

/// What is already cached.
#[derive(Debug, Clone, Copy, PartialEq, Eq, Structural)]
pub enum IsCached {
    Nothing,
    Backend,
    BackendnCS,
    BackendnCSnPalette,
    Preset,
}

/// The name of an image's cache directory: the base-36 FNV-1a hash of the
/// file's contents, `_` and the cache version.
pub open spec fn image_dir_name(file: Seq<u8>) -> Seq<char> {
    base36_spec(fnv1a_spec(file) as nat) + "_"@ + CACHE_VER@
}

/// The threshold as it appears in file names: `auto` for 0.
pub open spec fn threshold_name(th: u8) -> Seq<char> {
    if th == 0 {
        "auto"@
    } else {
        decimal_spec(th as nat)
    }
}

/// The file name of the colour space cache: `<backend>_<colorspace>_<threshold>`.
pub open spec fn cs_file_name(c: Config) -> Seq<char> {
    backend_name_spec(c.backend) + "_"@ + color_space_name_spec(c.color_space) + "_"@
        + threshold_name(c.true_th)
}

/// The file name of the palette cache: `<backend>_<colorspace>_<threshold>_<palette>`.
pub open spec fn palette_file_name(c: Config) -> Seq<char> {
    cs_file_name(c) + "_"@ + filter_name_spec(c.palette)
}

/// The cache of the image with contents `file` under the cache directory
/// `cache_path`.
pub open spec fn cache_spec(file: Seq<u8>, c: Config, cache_path: Seq<char>, r: Cache) -> bool {
    let root = join_spec(cache_path, "wallust"@);
    let dir = join_spec(root, image_dir_name(file));
    &&& r.path@ == root
    &&& r.name@ == dir
    &&& r.back@ == join_spec(dir, backend_name_spec(c.backend))
    &&& r.cs@ == join_spec(dir, cs_file_name(c))
    &&& r.palette@ == join_spec(dir, palette_file_name(c))
    &&& r.preset is None
}

/// What is cached, from the preset and from which of the three files exist.
pub open spec fn is_cached_spec(preset: bool, back: bool, cs: bool, palette: bool) -> IsCached {
    if preset {
        IsCached::Preset
    } else if back && cs && palette {
        IsCached::BackendnCSnPalette
    } else if back && cs {
        IsCached::BackendnCS
    } else if back {
        IsCached::Backend
    } else {
        IsCached::Nothing
    }
}

/// Why a cache file could not be read.
#[derive(Debug)]
pub enum CacheError {
    /// The file is not the JSON array of bytes that the backend cache holds.
    Json(serde_json::Error),
}

#[verifier::external_type_specification]
#[verifier::external_body]
pub struct ExJsonError(serde_json::Error);

/// The items of a compact JSON array of bytes: the decimal numbers
/// separated by commas.
pub open spec fn json_byte_items(v: Seq<u8>) -> Seq<char>
    decreases v.len(),
{
    if v.len() == 0 {
        Seq::empty()
    } else if v.len() == 1 {
        decimal_spec(v[0] as nat)
    } else {
        json_byte_items(v.drop_last()) + seq![','] + decimal_spec(v.last() as nat)
    }
}

/// The compact JSON array of bytes, e.g. `[0,12,255]`.
pub open spec fn json_byte_array(v: Seq<u8>) -> Seq<char> {
    seq!['['] + json_byte_items(v) + seq![']']
}

proof fn lemma_json_items_commas(v: Seq<u8>)
    ensures
        v.len() <= 1 ==> forall|i: int| 0 <= i < json_byte_items(v).len() ==> #[trigger] json_byte_items(v)[i] != ',',
        v.len() >= 2 ==> json_byte_items(v)[json_byte_items(v.drop_last()).len() as int] == ',',
        v.len() >= 1 ==> json_byte_items(v).len() >= 1,
{
    if v.len() == 1 {
        lemma_decimal(v[0] as nat);
    } else if v.len() >= 2 {
        lemma_decimal(v.last() as nat);
    }
}

/// Two byte sequences with the same compact JSON array are the same.
pub proof fn lemma_json_items_injective(a: Seq<u8>, b: Seq<u8>)
    requires
        json_byte_items(a) == json_byte_items(b),
    ensures
        a == b,
    decreases a.len(),
{
    lemma_json_items_commas(a);
    lemma_json_items_commas(b);
    let s = json_byte_items(a);
    if a.len() == 0 {
        assert(b.len() == 0);
        assert(a =~= b);
    } else if a.len() == 1 {
        if b.len() >= 2 {
            assert(s[json_byte_items(b.drop_last()).len() as int] == ',');
        }
        assert(b.len() == 1);
        lemma_decimal_injective(a[0] as nat, b[0] as nat);
        assert(a =~= b);
    } else {
        if b.len() <= 1 {
            assert(s[json_byte_items(a.drop_last()).len() as int] == ',');
        }
        assert(b.len() >= 2);
        let da = decimal_spec(a.last() as nat);
        let db = decimal_spec(b.last() as nat);
        lemma_decimal(a.last() as nat);
        lemma_decimal(b.last() as nat);
        let ia = json_byte_items(a.drop_last());
        let ib = json_byte_items(b.drop_last());
        assert(s == ia + seq![','] + da);
        assert(s == ib + seq![','] + db);
        if da.len() < db.len() {
            let k = s.len() - da.len() - 1;
            assert(s[k] == ',');
            assert(s[k] == db[k - ib.len() - 1]);
            assert(is_decimal_char(db[k - ib.len() - 1]));
        }
        if db.len() < da.len() {
            let k = s.len() - db.len() - 1;
            assert(s[k] == ',');
            assert(s[k] == da[k - ia.len() - 1]);
            assert(is_decimal_char(da[k - ia.len() - 1]));
        }
        assert(da.len() == db.len());
        assert(da =~= s.subrange(s.len() - da.len(), s.len() as int));
        assert(db =~= s.subrange(s.len() - db.len(), s.len() as int));
        lemma_decimal_injective(a.last() as nat, b.last() as nat);
        assert(ia =~= s.subrange(0, ia.len() as int));
        assert(ib =~= s.subrange(0, ib.len() as int));
        lemma_json_items_injective(a.drop_last(), b.drop_last());
        assert(a =~= a.drop_last().push(a.last()));
        assert(b =~= b.drop_last().push(b.last()));
    }
}

/// The backend cache gives back exactly what was written: two byte
/// sequences with the same backend cache text are the same, so what
/// `read_backend` reads from the text of `write_backend` is the bytes written.
pub proof fn backend_cache_roundtrip(written: Seq<u8>, read: Seq<u8>)
    requires
        json_byte_array(read) == json_byte_array(written),
    ensures
        read == written,
{
    let s = json_byte_array(read);
    assert(json_byte_items(read) =~= s.subrange(1, s.len() - 1));
    assert(json_byte_items(written) =~= s.subrange(1, s.len() - 1));
    lemma_json_items_injective(read, written);
}

/// Whether the text is the compact JSON array of some bytes.
pub open spec fn is_json_byte_array(text: Seq<char>) -> bool {
    exists|v: Seq<u8>| json_byte_array(v) == text
}

/// The bytes that `serde_json` reads from this text as a `Vec<u8>`, if any.
pub uninterp spec fn json_bytes_read(text: Seq<char>) -> Option<Seq<u8>>;

/// `serde_json::to_string` of a byte slice.
/// Trusted: the compact serializer writes `[`, the bytes in decimal separated
/// by `,`, and `]`; it does not fail on a slice of bytes.
#[verifier::external_body]
fn json_bytes_to_string(bytes: &[u8]) -> (r: Result<String, serde_json::Error>)
    ensures
        r is Ok,
        r matches Ok(s) ==> s@ == json_byte_array(bytes@),
{
    serde_json::to_string(bytes)
}

/// `serde_json::from_str::<Vec<u8>>`.
/// Trusted: it reads `json_bytes_read` of the text, and it reads a compact
/// array of bytes back as those bytes.
#[verifier::external_body]
fn json_bytes_from_str(text: &str) -> (r: Result<Vec<u8>, serde_json::Error>)
    ensures
        r is Ok <==> json_bytes_read(text@) is Some,
        r matches Ok(v) ==> v@ == json_bytes_read(text@)->0,
        r is Ok || !is_json_byte_array(text@),
        r matches Ok(x) ==> (is_json_byte_array(text@) ==> json_byte_array(x@) == text@),
{
    serde_json::from_str(text)
}

impl Cache {
    /// The cache of an image. `file` is the image's contents (hashed to name
    /// its directory), `cache_path` the platform's cache directory. Each image
    /// has its own directory holding: the backend file, the colour space file
    /// (backend, colour space and threshold) and the palette file (those and
    /// the palette), so that changing one setting reuses what does not depend
    /// on it.
    pub fn new(file: &[u8], c: &Config, cache_path: &str) -> (r: Cache)
        ensures
            cache_spec(file@, *c, cache_path@, r),
    {
        let cachepath = join(cache_path, "wallust");
        let mut dirname = base36(fnv1a(file));
        dirname.append("_");
        dirname.append(CACHE_VER);
        let name = join(cachepath.as_str(), dirname.as_str());
        let th = if c.true_th == 0 {
            String::from_str("auto")
        } else {
            decimal(c.true_th as u64)
        };
        let back = c.backend.name();
        let mut cs = back.clone();
        cs.append("_");
        cs.append(c.color_space.name().as_str());
        cs.append("_");
        cs.append(th.as_str());
        let mut palet = cs.clone();
        palet.append("_");
        palet.append(c.palette.name().as_str());
        Cache {
            back: join(name.as_str(), back.as_str()),
            cs: join(name.as_str(), cs.as_str()),
            palette: join(name.as_str(), palet.as_str()),
            preset: None,
            path: cachepath,
            name,
        }
    }

    /// What is cached, given whether the backend, colour space and palette
    /// files exist. A preset takes precedence over everything.
    pub fn is_cached_all(&self, back_exists: bool, cs_exists: bool, palette_exists: bool) -> (r: IsCached)
        ensures
            r == is_cached_spec(self.preset is Some, back_exists, cs_exists, palette_exists),
    {
        if self.preset.is_some() {
            return IsCached::Preset;
        }
        let b = back_exists;
        let cs = cs_exists;
        let p = palette_exists;
        if b && cs && p {
            IsCached::BackendnCSnPalette
        } else if b && cs {
            IsCached::BackendnCS
        } else if b {
            IsCached::Backend
        } else {
            IsCached::Nothing
        }
    }

    /// The text of the backend file (`self.back`) that caches these bytes:
    /// their compact JSON array.
    pub fn write_backend(&self, bytes: &[u8]) -> (r: String)
        ensures
            r@ == json_byte_array(bytes@),
    {
        match json_bytes_to_string(bytes) {
            Ok(s) => s,
            Err(_) => {
                proof {
                    assert(false);
                }
                String::new()
            },
        }
    }

    /// The bytes cached in the text of the backend file (`self.back`). What
    /// `write_backend` wrote is read back unchanged.
    pub fn read_backend(&self, text: &str) -> (r: Result<Vec<u8>, CacheError>)
        ensures
            r is Ok <==> json_bytes_read(text@) is Some,
            r matches Ok(v) ==> v@ == json_bytes_read(text@)->0,
            r is Ok || !is_json_byte_array(text@),
            forall|v: Seq<u8>| text@ == json_byte_array(v) ==> (r matches Ok(x) && x@ == v),
    {
        proof {
            assert forall|v: Seq<u8>| text@ == json_byte_array(v) implies is_json_byte_array(text@) by {}
        }
        match json_bytes_from_str(text) {
            Ok(x) => {
                proof {
                    assert forall|v: Seq<u8>| text@ == json_byte_array(v) implies x@ == v by {
                        backend_cache_roundtrip(v, x@);
                    }
                }
                Ok(x)
            },
            Err(e) => Err(CacheError::Json(e)),
        }
    }
}

/// A name that can stand between `_` separators: no `_` and no `/` in it,
/// and not empty.
pub open spec fn plain_name(s: Seq<char>) -> bool {
    s.len() > 0 && forall|i: int| 0 <= i < s.len() ==> #[trigger] s[i] != '_' && s[i] != '/'
}

proof fn lemma_names_plain(b: Backend, x: ColorSpace, f: Filters, th: u8)
    ensures
        plain_name(backend_name_spec(b)),
        plain_name(color_space_name_spec(x)),
        plain_name(filter_name_spec(f)),
        plain_name(threshold_name(th)),
{
    reveal_strlit("Full");
    reveal_strlit("Resized");
    reveal_strlit("Wal");
    reveal_strlit("Thumb");
    reveal_strlit("FastResize");
    reveal_strlit("Kmeans");
    reveal_strlit("Lab");
    reveal_strlit("LabMixed");
    reveal_strlit("Lch");
    reveal_strlit("LchMixed");
    reveal_strlit("Salience");
    reveal_strlit("LchAnsi");
    reveal_strlit("Dark");
    reveal_strlit("Dark16");
    reveal_strlit("HardDark");
    reveal_strlit("HardDark16");
    reveal_strlit("Light");
    reveal_strlit("Light16");
    reveal_strlit("SoftDark");
    reveal_strlit("SoftDark16");
    reveal_strlit("SoftLight");
    reveal_strlit("SoftLight16");
    reveal_strlit("DarkComp");
    reveal_strlit("auto");
    lemma_decimal(th as nat);
}

proof fn lemma_backend_name_len(b: Backend)
    ensures
        backend_name_spec(b).len() == match b {
            Backend::Full => 4nat,
            Backend::Resized => 7,
            Backend::Wal => 3,
            Backend::Thumb => 5,
            Backend::FastResize => 10,
            Backend::Kmeans => 6,
        },
{
    reveal_strlit("Full");
    reveal_strlit("Resized");
    reveal_strlit("Wal");
    reveal_strlit("Thumb");
    reveal_strlit("FastResize");
    reveal_strlit("Kmeans");
}

/// Length, first and third character of a colour space name.
spec fn cs_signature(x: ColorSpace) -> (nat, char, char) {
    match x {
        ColorSpace::Lab => (3, 'L', 'b'),
        ColorSpace::LabMixed => (8, 'L', 'b'),
        ColorSpace::Lch => (3, 'L', 'h'),
        ColorSpace::LchMixed => (8, 'L', 'h'),
        ColorSpace::Salience => (8, 'S', 'l'),
        ColorSpace::LchAnsi => (7, 'L', 'h'),
    }
}

proof fn lemma_cs_signature(x: ColorSpace)
    ensures
        cs_signature(x) == (color_space_name_spec(x).len(), color_space_name_spec(x)[0], color_space_name_spec(x)[2]),
{
    reveal_strlit("Lab");
    reveal_strlit("LabMixed");
    reveal_strlit("Lch");
    reveal_strlit("LchMixed");
    reveal_strlit("Salience");
    reveal_strlit("LchAnsi");
}

proof fn lemma_names_injective(b1: Backend, b2: Backend, x1: ColorSpace, x2: ColorSpace, t1: u8, t2: u8)
    ensures
        backend_name_spec(b1) == backend_name_spec(b2) ==> b1 == b2,
        color_space_name_spec(x1) == color_space_name_spec(x2) ==> x1 == x2,
        threshold_name(t1) == threshold_name(t2) ==> t1 == t2,
{
    lemma_backend_name_len(b1);
    lemma_backend_name_len(b2);
    lemma_cs_signature(x1);
    lemma_cs_signature(x2);
    reveal_strlit("auto");
    lemma_decimal(t1 as nat);
    lemma_decimal(t2 as nat);
    if threshold_name(t1) == threshold_name(t2) {
        assert(threshold_name(t1)[0] == threshold_name(t2)[0]);
        if t1 != 0 && t2 != 0 {
            lemma_decimal_injective(t1 as nat, t2 as nat);
        }
    }
}

/// Length and first character of a palette name.
spec fn filter_signature(f: Filters) -> (nat, char) {
    match f {
        Filters::Dark => (4, 'D'),
        Filters::Dark16 => (6, 'D'),
        Filters::HardDark => (8, 'H'),
        Filters::HardDark16 => (10, 'H'),
        Filters::Light => (5, 'L'),
        Filters::Light16 => (7, 'L'),
        Filters::SoftDark => (8, 'S'),
        Filters::SoftDark16 => (10, 'S'),
        Filters::SoftLight => (9, 'S'),
        Filters::SoftLight16 => (11, 'S'),
        Filters::DarkComp => (8, 'D'),
    }
}

/// Palettes with the same displayed name are the same palette.
pub proof fn filter_names_injective(f1: Filters, f2: Filters)
    requires
        filter_name_spec(f1) == filter_name_spec(f2),
    ensures
        f1 == f2,
{
    reveal_strlit("Dark");
    reveal_strlit("Dark16");
    reveal_strlit("HardDark");
    reveal_strlit("HardDark16");
    reveal_strlit("Light");
    reveal_strlit("Light16");
    reveal_strlit("SoftDark");
    reveal_strlit("SoftDark16");
    reveal_strlit("SoftLight");
    reveal_strlit("SoftLight16");
    reveal_strlit("DarkComp");
    assert(filter_signature(f1) == (filter_name_spec(f1).len(), filter_name_spec(f1)[0]));
    assert(filter_signature(f2) == (filter_name_spec(f2).len(), filter_name_spec(f2)[0]));
}

proof fn lemma_split_underscore(a1: Seq<char>, b1: Seq<char>, a2: Seq<char>, b2: Seq<char>)
    requires
        plain_name(a1),
        plain_name(a2),
        a1 + "_"@ + b1 == a2 + "_"@ + b2,
    ensures
        a1 == a2,
        b1 == b2,
{
    reveal_strlit("_");
    let s = a1 + "_"@ + b1;
    if a1.len() < a2.len() {
        assert(s[a1.len() as int] == '_');
        assert(s[a1.len() as int] == a2[a1.len() as int]);
    }
    if a2.len() < a1.len() {
        assert(s[a2.len() as int] == '_');
        assert(s[a2.len() as int] == a1[a2.len() as int]);
    }
    assert(a1 =~= s.subrange(0, a1.len() as int));
    assert(a2 =~= s.subrange(0, a2.len() as int));
    assert(b1 =~= s.subrange(a1.len() as int + 1, s.len() as int));
    assert(b2 =~= s.subrange(a2.len() as int + 1, s.len() as int));
}

proof fn lemma_join_injective(dir: Seq<char>, n1: Seq<char>, n2: Seq<char>)
    requires
        plain_name(n1) || n1.len() > 0 && n1[0] != '/',
        plain_name(n2) || n2.len() > 0 && n2[0] != '/',
        join_spec(dir, n1) == join_spec(dir, n2),
    ensures
        n1 == n2,
{
    let p = if dir.len() == 0 {
        Seq::<char>::empty()
    } else if dir.last() == '/' {
        dir
    } else {
        dir + seq!['/']
    };
    assert(join_spec(dir, n1) =~= p + n1);
    assert(join_spec(dir, n2) =~= p + n2);
    assert(n1 =~= (p + n1).subrange(p.len() as int, (p + n1).len() as int));
    assert(n2 =~= (p + n2).subrange(p.len() as int, (p + n2).len() as int));
}

proof fn lemma_cs_name_parts(c: Config)
    ensures
        cs_file_name(c) == backend_name_spec(c.backend) + "_"@ + (color_space_name_spec(c.color_space) + "_"@
            + threshold_name(c.true_th)),
        palette_file_name(c) == backend_name_spec(c.backend) + "_"@ + (color_space_name_spec(c.color_space)
            + "_"@ + (threshold_name(c.true_th) + "_"@ + filter_name_spec(c.palette))),
        cs_file_name(c).len() > 0 && cs_file_name(c)[0] != '/',
        palette_file_name(c).len() > 0 && palette_file_name(c)[0] != '/',
{
    lemma_names_plain(c.backend, c.color_space, c.palette, c.true_th);
    let b = backend_name_spec(c.backend);
    let x = color_space_name_spec(c.color_space);
    let t = threshold_name(c.true_th);
    let f = filter_name_spec(c.palette);
    assert(cs_file_name(c) =~= b + "_"@ + (x + "_"@ + t));
    assert(palette_file_name(c) =~= b + "_"@ + (x + "_"@ + (t + "_"@ + f)));
    assert(cs_file_name(c)[0] == b[0]);
    assert(palette_file_name(c)[0] == b[0]);
}

/// Cache files never mix settings: for the same image, the same backend file
/// means the same backend; the same colour space file means the same backend,
/// colour space and threshold; the same palette file means all of those and
/// the same palette.
/// So a scheme cached under some settings is never read back under others.
pub proof fn cache_files_keep_settings_apart(
    file: Seq<u8>,
    cache_path: Seq<char>,
    c1: Config,
    r1: Cache,
    c2: Config,
    r2: Cache,
)
    requires
        cache_spec(file, c1, cache_path, r1),
        cache_spec(file, c2, cache_path, r2),
    ensures
        r1.back@ == r2.back@ ==> c1.backend == c2.backend,
        r1.cs@ == r2.cs@ ==> c1.backend == c2.backend && c1.color_space == c2.color_space && c1.true_th
            == c2.true_th,
        r1.palette@ == r2.palette@ ==> c1.backend == c2.backend && c1.color_space == c2.color_space
            && c1.true_th == c2.true_th && c1.palette == c2.palette,
{
    let dir = r1.name@;
    lemma_names_plain(c1.backend, c1.color_space, c1.palette, c1.true_th);
    lemma_names_plain(c2.backend, c2.color_space, c2.palette, c2.true_th);
    lemma_names_injective(c1.backend, c2.backend, c1.color_space, c2.color_space, c1.true_th, c2.true_th);
    lemma_cs_name_parts(c1);
    lemma_cs_name_parts(c2);
    let b1 = backend_name_spec(c1.backend);
    let b2 = backend_name_spec(c2.backend);
    let x1 = color_space_name_spec(c1.color_space);
    let x2 = color_space_name_spec(c2.color_space);
    let t1 = threshold_name(c1.true_th);
    let t2 = threshold_name(c2.true_th);
    if r1.back@ == r2.back@ {
        lemma_join_injective(dir, b1, b2);
    }
    if r1.cs@ == r2.cs@ {
        lemma_join_injective(dir, cs_file_name(c1), cs_file_name(c2));
        lemma_split_underscore(b1, x1 + "_"@ + t1, b2, x2 + "_"@ + t2);
        lemma_split_underscore(x1, t1, x2, t2);
    }
    if r1.palette@ == r2.palette@ {
        let f1 = filter_name_spec(c1.palette);
        let f2 = filter_name_spec(c2.palette);
        lemma_join_injective(dir, palette_file_name(c1), palette_file_name(c2));
        lemma_split_underscore(b1, x1 + "_"@ + (t1 + "_"@ + f1), b2, x2 + "_"@ + (t2 + "_"@ + f2));
        lemma_split_underscore(x1, t1 + "_"@ + f1, x2, t2 + "_"@ + f2);
        lemma_split_underscore(t1, f1, t2, f2);
        filter_names_injective(c1.palette, c2.palette);
    }
}

} // verus!
