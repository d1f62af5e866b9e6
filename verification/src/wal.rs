//! The `wal` backend's logic: the arguments given to ImageMagick, when to ask
//! it again for more colours, and the parser of its `txt:` output. Running the
//! command happens in the program around this library.
//!
//! A line of the output looks like `0,0: (92,64,54)  #5C4036  srgb(...)`. The
//! colour is read from the hex field `#RRGGBB`: the parenthesised values are
//! shortened by ImageMagick (`(238)` for `(238,0,0)`), the hex field is not.
use vstd::prelude::*;

use vstd::slice::slice_subrange;

use crate::text::{decimal, decimal_spec};

verus! {

/// ASCII whitespace, as `u8::is_ascii_whitespace` has it.
pub open spec fn is_ascii_ws(b: u8) -> bool {
    b == 0x20 || b == 0x09 || b == 0x0a || b == 0x0c || b == 0x0d
}

/// The pieces of `s` separated by the byte `sep` (`str::split`): one more
/// than there are separators, possibly empty.
pub open spec fn split_on(s: Seq<u8>, sep: u8) -> Seq<Seq<u8>>
    decreases s.len(),
{
    if s.len() == 0 {
        seq![Seq::empty()]
    } else {
        let p = split_on(s.drop_last(), sep);
        if s.last() == sep {
            p.push(Seq::empty())
        } else {
            p.update(p.len() - 1, p.last().push(s.last()))
        }
    }
}

/// The lines of `s` (`str::lines`): the pieces between newlines, without an
/// empty piece after a final newline. A carriage return before a newline
/// stays in the line; it is whitespace to the parser.
pub open spec fn lines_spec(s: Seq<u8>) -> Seq<Seq<u8>> {
    let p = split_on(s, 0x0a);
    if p.last().len() == 0 {
        p.drop_last()
    } else {
        p
    }
}

/// The whitespace-separated fields of `s` (`str::split_ascii_whitespace`).
pub open spec fn fields_spec(s: Seq<u8>) -> Seq<Seq<u8>>
    decreases s.len(),
{
    if s.len() == 0 {
        Seq::empty()
    } else {
        let t = fields_spec(s.drop_last());
        let c = s.last();
        if is_ascii_ws(c) {
            t
        } else if s.len() == 1 || is_ascii_ws(s[s.len() - 2]) {
            t.push(seq![c])
        } else {
            t.update(t.len() - 1, t.last().push(c))
        }
    }
}

/// The value of a hexadecimal digit byte (either case).
pub open spec fn hex_digit(b: u8) -> Option<u8> {
    if 0x30 <= b && b <= 0x39 {
        Some((b - 0x30) as u8)
    } else if 0x61 <= b && b <= 0x66 {
        Some((b - 0x61 + 10) as u8)
    } else if 0x41 <= b && b <= 0x46 {
        Some((b - 0x41 + 10) as u8)
    } else {
        None
    }
}

/// Whether a field is a hex colour: `#` and six hexadecimal digits, or
/// eight when the image has an alpha channel (the alpha is left out).
pub open spec fn is_hex_field(f: Seq<u8>) -> bool {
    &&& (f.len() == 7 || f.len() == 9)
    &&& f[0] == 0x23
    &&& forall|i: int| 1 <= i < f.len() ==> (#[trigger] hex_digit(f[i])) is Some
}

/// The byte that two hexadecimal digits denote.
pub open spec fn hex_byte(hi: u8, lo: u8) -> u8 {
    (hex_digit(hi)->0 * 16 + hex_digit(lo)->0) as u8
}

/// The red, green and blue bytes of a hex colour field.
pub open spec fn hex_rgb(f: Seq<u8>) -> Seq<u8> {
    seq![hex_byte(f[1], f[2]), hex_byte(f[3], f[4]), hex_byte(f[5], f[6])]
}

/// The upper-case hexadecimal digit of `d` (`d < 16`), as ImageMagick
/// writes it.
pub open spec fn upper_hex(d: u8) -> u8 {
    if d < 10 {
        (0x30 + d) as u8
    } else {
        (0x41 + d - 10) as u8
    }
}

/// The lower-case hexadecimal digit of `d` (`d < 16`).
pub open spec fn lower_hex(d: u8) -> u8 {
    if d < 10 {
        (0x30 + d) as u8
    } else {
        (0x61 + d - 10) as u8
    }
}

/// The field `#RRGGBB` of a colour, with the given digits for each value.
pub open spec fn rgb_field(r: u8, g: u8, b: u8, upper: bool) -> Seq<u8> {
    let h = |d: u8| if upper { upper_hex(d) } else { lower_hex(d) };
    seq![0x23u8, h(r / 16), h(r % 16), h(g / 16), h(g % 16), h(b / 16), h(b % 16)]
}

/// Every colour written as `#RRGGBB`, in either case, is a hex field, and
/// reading it gives back its red, green and blue bytes; an alpha pair after
/// them changes nothing.
pub proof fn hex_field_reads_back(r: u8, g: u8, b: u8, upper: bool, a: u8)
    ensures
        is_hex_field(rgb_field(r, g, b, upper)),
        hex_rgb(rgb_field(r, g, b, upper)) == seq![r, g, b],
        is_hex_field(rgb_field(r, g, b, upper) + seq![upper_hex(a / 16), upper_hex(a % 16)]),
        hex_rgb(rgb_field(r, g, b, upper) + seq![upper_hex(a / 16), upper_hex(a % 16)]) == seq![r, g, b],
{
    let f = rgb_field(r, g, b, upper);
    let f2 = f + seq![upper_hex(a / 16), upper_hex(a % 16)];
    assert forall|i: int| 1 <= i < f.len() implies (#[trigger] hex_digit(f[i])) is Some by {}
    assert forall|i: int| 1 <= i < f2.len() implies (#[trigger] hex_digit(f2[i])) is Some by {}
    assert(hex_rgb(f) =~= seq![r, g, b]);
    assert(hex_rgb(f2) =~= seq![r, g, b]);
}

/// The first field from position `k` on that begins with `#`.
pub open spec fn hash_field_from(fs: Seq<Seq<u8>>, k: int) -> Option<Seq<u8>>
    decreases fs.len() - k,
{
    if k < 0 || k >= fs.len() {
        None
    } else if fs[k].len() > 0 && fs[k][0] == 0x23 {
        Some(fs[k])
    } else {
        hash_field_from(fs, k + 1)
    }
}

/// The colour of one line: its hex field, the first field after the pixel
/// position that begins with `#`, read as `#RRGGBB`.
pub open spec fn parse_line_spec(line: Seq<u8>) -> Option<Seq<u8>> {
    match hash_field_from(fields_spec(line), 1) {
        Some(f) => if is_hex_field(f) {
            Some(hex_rgb(f))
        } else {
            None
        },
        None => None,
    }
}

/// The colours of several lines, their bytes one after the other; `None` if
/// one line has none.
pub open spec fn parse_lines_spec(ls: Seq<Seq<u8>>) -> Option<Seq<u8>>
    decreases ls.len(),
{
    if ls.len() == 0 {
        Some(Seq::empty())
    } else {
        match (parse_lines_spec(ls.drop_last()), parse_line_spec(ls.last())) {
            (Some(a), Some(b)) => Some(a + b),
            _ => None,
        }
    }
}

/// The RGB8 bytes of an ImageMagick `txt:` output: every line but the first
/// (a header) gives one colour.
pub open spec fn wal_colors_spec(out: Seq<u8>) -> Option<Seq<u8>> {
    let ls = lines_spec(out);
    if ls.len() == 0 {
        Some(Seq::empty())
    } else {
        parse_lines_spec(ls.drop_first())
    }
}

/// The byte sequences held by a vector of byte vectors.
pub open spec fn views(v: Seq<Vec<u8>>) -> Seq<Seq<u8>> {
    Seq::new(v.len(), |i: int| v[i]@)
}

/// The pieces of `s` separated by the byte `sep` (see `split_on`).
pub fn split_bytes(s: &[u8], sep: u8) -> (r: Vec<Vec<u8>>)
    ensures
        views(r@) == split_on(s@, sep),
{
    let mut done: Vec<Vec<u8>> = Vec::new();
    let mut cur: Vec<u8> = Vec::new();
    let mut i: usize = 0;
    while i < s.len()
        invariant
            i <= s.len(),
            split_on(s@.take(i as int), sep) =~= views(done@).push(cur@),
        decreases s.len() - i,
    {
        assert(s@.take(i + 1).drop_last() =~= s@.take(i as int));
        let ghost pre = views(done@);
        let ghost pc = cur@;
        let b = s[i];
        if b == sep {
            done.push(cur);
            cur = Vec::new();
            assert(views(done@) =~= pre.push(pc));
        } else {
            cur.push(b);
        }
        i += 1;
        assert(split_on(s@.take(i as int), sep) =~= views(done@).push(cur@));
    }
    assert(s@.take(i as int) =~= s@);
    let ghost pre = views(done@);
    done.push(cur);
    assert(views(done@) =~= pre.push(cur@));
    done
}

fn is_ws_byte(b: u8) -> (r: bool)
    ensures
        r == is_ascii_ws(b),
{
    b == 0x20 || b == 0x09 || b == 0x0a || b == 0x0c || b == 0x0d
}

/// The whitespace-separated fields of `s` (see `fields_spec`).
pub fn fields(s: &[u8]) -> (r: Vec<Vec<u8>>)
    ensures
        views(r@) == fields_spec(s@),
{
    let mut done: Vec<Vec<u8>> = Vec::new();
    let mut cur: Vec<u8> = Vec::new();
    let mut i: usize = 0;
    while i < s.len()
        invariant
            i <= s.len(),
            fields_spec(s@.take(i as int)) =~= (if cur@.len() > 0 { views(done@).push(cur@) } else { views(done@) }),
            cur@.len() > 0 <==> (i > 0 && !is_ascii_ws(s@[i - 1])),
        decreases s.len() - i,
    {
        assert(s@.take(i + 1).drop_last() =~= s@.take(i as int));
        let ghost pre = views(done@);
        let ghost pc = cur@;
        let b = s[i];
        if is_ws_byte(b) {
            if cur.len() > 0 {
                done.push(cur);
                cur = Vec::new();
                assert(views(done@) =~= pre.push(pc));
            }
        } else {
            cur.push(b);
            assert(pc.len() == 0 ==> cur@ =~= seq![b]);
        }
        i += 1;
        assert(fields_spec(s@.take(i as int)) =~= (if cur@.len() > 0 { views(done@).push(cur@) } else { views(done@) }));
    }
    assert(s@.take(i as int) =~= s@);
    if cur.len() > 0 {
        let ghost pre = views(done@);
        let ghost pc = cur@;
        done.push(cur);
        assert(views(done@) =~= pre.push(pc));
    }
    done
}

fn hex_digit_of(b: u8) -> (r: Option<u8>)
    ensures
        r == hex_digit(b),
{
    if 0x30 <= b && b <= 0x39 {
        Some(b - 0x30)
    } else if 0x61 <= b && b <= 0x66 {
        Some(b - 0x61 + 10)
    } else if 0x41 <= b && b <= 0x46 {
        Some(b - 0x41 + 10)
    } else {
        None
    }
}

/// The colour of a hex field (see `is_hex_field` and `hex_rgb`).
pub fn parse_hex(f: &[u8]) -> (r: Option<Vec<u8>>)
    ensures
        is_hex_field(f@) ==> (r matches Some(v) && v@ == hex_rgb(f@)),
        !is_hex_field(f@) ==> r is None,
{
    if !(f.len() == 7 || f.len() == 9) || f[0] != 0x23 {
        return None;
    }
    let mut digits: Vec<u8> = Vec::new();
    let mut i: usize = 1;
    while i < f.len()
        invariant
            f@.len() == 7 || f@.len() == 9,
            1 <= i <= f.len(),
            digits@.len() == i - 1,
            forall|j: int| 1 <= j < i ==> (#[trigger] hex_digit(f@[j])) == Some(digits@[j - 1]),
        decreases f.len() - i,
    {
        match hex_digit_of(f[i]) {
            Some(d) => digits.push(d),
            None => {
                assert(hex_digit(f@[i as int]) is None);
                return None;
            },
        }
        i += 1;
    }
    assert(is_hex_field(f@));
    let mut rgb: Vec<u8> = Vec::new();
    assert(hex_digit(f@[1]) == Some(digits@[0]) && hex_digit(f@[2]) == Some(digits@[1]));
    assert(hex_digit(f@[3]) == Some(digits@[2]) && hex_digit(f@[4]) == Some(digits@[3]));
    assert(hex_digit(f@[5]) == Some(digits@[4]) && hex_digit(f@[6]) == Some(digits@[5]));
    rgb.push(digits[0] * 16 + digits[1]);
    rgb.push(digits[2] * 16 + digits[3]);
    rgb.push(digits[4] * 16 + digits[5]);
    assert(rgb@ =~= hex_rgb(f@));
    Some(rgb)
}

/// The colour that one line of ImageMagick's output gives, as three bytes
/// (see `parse_line_spec`).
pub fn parse_line(line: &[u8]) -> (r: Option<Vec<u8>>)
    ensures
        match parse_line_spec(line@) {
            Some(c) => r matches Some(v) && v@ == c,
            None => r is None,
        },
{
    let f = fields(line);
    let ghost fs = fields_spec(line@);
    assert(views(f@) =~= fs);
    let mut k: usize = 1;
    while k < f.len()
        invariant
            views(f@) == fs,
            fs == fields_spec(line@),
            1 <= k,
            hash_field_from(fs, 1) == hash_field_from(fs, k as int),
        decreases f.len() - k,
    {
        assert(f@[k as int]@ == fs[k as int]);
        if f[k].len() > 0 && f[k][0] == 0x23 {
            assert(hash_field_from(fs, k as int) == Some(fs[k as int]));
            let r = parse_hex(f[k].as_slice());
            assert(f[k as int]@ == fs[k as int]);
            assert(parse_line_spec(line@) == (if is_hex_field(fs[k as int]) {
                Some(hex_rgb(fs[k as int]))
            } else {
                None
            }));
            return r;
        }
        assert(hash_field_from(fs, k as int) == hash_field_from(fs, k + 1));
        k += 1;
    }
    assert(hash_field_from(fs, k as int) is None);
    None
}

proof fn lemma_split_on_nonempty(s: Seq<u8>, sep: u8)
    ensures
        split_on(s, sep).len() >= 1,
    decreases s.len(),
{
    if s.len() > 0 {
        lemma_split_on_nonempty(s.drop_last(), sep);
    }
}

proof fn lemma_parse_lines_prefix_none(ls: Seq<Seq<u8>>, k: int)
    requires
        0 <= k <= ls.len(),
        parse_lines_spec(ls.take(k)) is None,
    ensures
        parse_lines_spec(ls) is None,
    decreases ls.len() - k,
{
    if k < ls.len() {
        assert(ls.take(k + 1).drop_last() =~= ls.take(k));
        lemma_parse_lines_prefix_none(ls, k + 1);
    } else {
        assert(ls.take(k) =~= ls);
    }
}

proof fn lemma_parse_lines_len(ls: Seq<Seq<u8>>)
    ensures
        parse_lines_spec(ls) matches Some(c) ==> c.len() == 3 * ls.len(),
    decreases ls.len(),
{
    if ls.len() > 0 {
        lemma_parse_lines_len(ls.drop_last());
    }
}

/// Every line of ImageMagick's output after the header gives exactly one
/// colour, three bytes: red, green and blue.
pub proof fn wal_three_bytes_per_line(out: Seq<u8>)
    ensures
        wal_colors_spec(out) matches Some(c) ==> c.len() == 3 * (if lines_spec(out).len() == 0 {
            0
        } else {
            lines_spec(out).len() - 1
        }),
{
    if lines_spec(out).len() > 0 {
        lemma_parse_lines_len(lines_spec(out).drop_first());
    }
}

/// The lines of `s` (see `lines_spec`).
pub fn lines(s: &[u8]) -> (r: Vec<Vec<u8>>)
    ensures
        views(r@) == lines_spec(s@),
{
    let mut p = split_bytes(s, 0x0a);
    proof {
        lemma_split_on_nonempty(s@, 0x0a);
    }
    let n = p.len();
    if p[n - 1].len() == 0 {
        let ghost pre = views(p@);
        p.pop();
        assert(views(p@) =~= pre.drop_last());
    }
    p
}

/// The RGB8 bytes of an ImageMagick `txt:` output (see `wal_colors_spec`):
/// `None` when some colour line is not as `parse_line_spec` reads it (an
/// output the backend cannot use).
pub fn wal_colors(out: &[u8]) -> (r: Option<Vec<u8>>)
    ensures
        match wal_colors_spec(out@) {
            Some(c) => r matches Some(v) && v@ == c,
            None => r is None,
        },
{
    let ls = lines(out);
    let mut acc: Vec<u8> = Vec::new();
    if ls.len() == 0 {
        return Some(acc);
    }
    let ghost all = views(ls@);
    let mut j: usize = 1;
    assert(all.subrange(1, 1) =~= Seq::<Seq<u8>>::empty());
    while j < ls.len()
        invariant
            1 <= j <= ls.len(),
            all == views(ls@),
            all == lines_spec(out@),
            parse_lines_spec(all.subrange(1, j as int)) == Some(acc@),
        decreases ls.len() - j,
    {
        assert(all.subrange(1, j + 1).drop_last() =~= all.subrange(1, j as int));
        assert(all.subrange(1, j + 1).last() == ls@[j as int]@);
        match parse_line(ls[j].as_slice()) {
            Some(c) => {
                acc.append(&mut c.clone());
            },
            None => {
                proof {
                    let rest = all.drop_first();
                    assert(rest.take(j as int) =~= all.subrange(1, j + 1));
                    lemma_parse_lines_prefix_none(rest, j as int);
                }
                return None;
            },
        }
        j += 1;
    }
    assert(all.subrange(1, j as int) =~= all.drop_first());
    Some(acc)
}

/// The number of lines of ImageMagick's output.
pub fn line_count(out: &[u8]) -> (n: usize)
    ensures
        n == lines_spec(out@).len(),
{
    lines(out).len()
}

/// What the `wal` backend does after asking ImageMagick for colours.
#[derive(Debug, Clone, Copy, PartialEq, Eq, Structural)]
pub enum WalNext {
    /// The output has enough lines: parse it.
    Parse,
    /// Ask again for this many colours.
    Retry(u8),
    /// "Imagemagick couldn't generate a suitable palette."
    GiveUp,
}

/// The first request asks ImageMagick for this many colours.
pub const WAL_FIRST_COLORS: u8 = 16;

/// After the attempt `attempt` (counted from 0, asking for `16 + attempt`
/// colours) gave an output of `line_count` lines: parse it once it has more
/// than 16 lines (a header and at least 16 colours), otherwise ask for one
/// colour more, at most 20 times in all.
pub fn wal_next(attempt: u8, line_count: usize) -> (r: WalNext)
    requires
        attempt < 20,
    ensures
        r == (if line_count > 16 {
            WalNext::Parse
        } else if attempt == 19 {
            WalNext::GiveUp
        } else {
            WalNext::Retry((16 + attempt + 1) as u8)
        }),
{
    if line_count > 16 {
        WalNext::Parse
    } else if attempt == 19 {
        WalNext::GiveUp
    } else {
        WalNext::Retry(WAL_FIRST_COLORS + attempt + 1)
    }
}

/// The arguments given to ImageMagick for an image displayed as `image`,
/// asking for `colors` colours.
pub open spec fn imagemagick_args_spec(image: Seq<char>, colors: u8) -> Seq<Seq<char>> {
    seq![
        image + "[0]"@,
        "-resize"@,
        "25%"@,
        "-colors"@,
        decimal_spec(colors as nat),
        "-unique-colors"@,
        "-colorspace"@,
        "srgb"@,
        "-depth"@,
        "8"@,
        "txt:-"@,
    ]
}

/// The arguments of `magick`/`convert`: the first frame of the image (GIF),
/// resized to a quarter, reduced to `colors` unique colours in 8-bit sRGB,
/// printed as text.
pub fn imagemagick_args(image: &str, colors: u8) -> (r: Vec<String>)
    ensures
        r@.len() == 11,
        forall|i: int| 0 <= i < 11 ==> #[trigger] r@[i]@ == imagemagick_args_spec(image@, colors)[i],
{
    let mut first = String::from_str(image);
    first.append("[0]");
    let mut r: Vec<String> = Vec::new();
    r.push(first);
    r.push(String::from_str("-resize"));
    r.push(String::from_str("25%"));
    r.push(String::from_str("-colors"));
    r.push(decimal(colors as u64));
    r.push(String::from_str("-unique-colors"));
    r.push(String::from_str("-colorspace"));
    r.push(String::from_str("srgb"));
    r.push(String::from_str("-depth"));
    r.push(String::from_str("8"));
    r.push(String::from_str("txt:-"));
    r
}

} // verus!
