//! Small text helpers shared by the cache naming, the configuration and the
//! ImageMagick parser: decimal formatting and parsing, and path joining.
use vstd::prelude::*;

verus! {

/// Appends `c` to `s` with `String::push`.
/// Trusted: `String::push` appends exactly the one character to the end.
#[verifier::external_body]
pub(crate) fn push_char(s: &mut String, c: char)
    ensures
        final(s)@ == old(s)@.push(c),
{
    s.push(c);
}

/// The ASCII decimal digit character of `d` (`d < 10`).
pub open spec fn decimal_digit(d: nat) -> char {
    ((d + 48) as u8) as char
}

/// The decimal representation of `n`, most significant digit first, without
/// leading zeros (`0` is written `"0"`).
pub open spec fn decimal_spec(n: nat) -> Seq<char>
    decreases n,
{
    if n < 10 {
        seq![decimal_digit(n)]
    } else {
        decimal_spec(n / 10).push(decimal_digit(n % 10))
    }
}

/// An ASCII decimal digit character.
pub open spec fn is_decimal_char(c: char) -> bool {
    '0' <= c && c <= '9'
}

/// The number that a sequence of decimal digits denotes.
pub open spec fn decimal_value(s: Seq<char>) -> nat
    decreases s.len(),
{
    if s.len() == 0 {
        0
    } else {
        decimal_value(s.drop_last()) * 10 + (s.last() as nat - 48) as nat
    }
}

/// A decimal representation is a non-empty run of digits that denotes the
/// number it was made from.
pub proof fn lemma_decimal(n: nat)
    ensures
        decimal_spec(n).len() >= 1,
        forall|i: int| 0 <= i < decimal_spec(n).len() ==> is_decimal_char(#[trigger] decimal_spec(n)[i]),
        decimal_value(decimal_spec(n)) == n,
    decreases n,
{
    if n < 10 {
        assert(decimal_spec(n).drop_last() =~= Seq::<char>::empty());
        assert(decimal_value(Seq::<char>::empty()) == 0);
    } else {
        lemma_decimal(n / 10);
        let s = decimal_spec(n);
        assert(s.drop_last() =~= decimal_spec(n / 10));
        assert forall|i: int| 0 <= i < s.len() implies is_decimal_char(#[trigger] s[i]) by {
            if i < s.len() - 1 {
                assert(s[i] == decimal_spec(n / 10)[i]);
            }
        }
        assert(n == (n / 10) * 10 + n % 10);
    }
}

/// Different numbers have different decimal representations.
pub proof fn lemma_decimal_injective(a: nat, b: nat)
    requires
        decimal_spec(a) == decimal_spec(b),
    ensures
        a == b,
{
    lemma_decimal(a);
    lemma_decimal(b);
}

/// Reverses a sequence of characters.
pub open spec fn reversed(s: Seq<char>) -> Seq<char> {
    Seq::new(s.len(), |i: int| s[s.len() - 1 - i])
}

/// Builds a `String` holding the characters of `v` in reverse order.
pub(crate) fn string_from_reversed(v: &Vec<char>) -> (s: String)
    ensures
        s@ == reversed(v@),
{
    let mut s = String::new();
    let mut j: usize = v.len();
    while j > 0
        invariant
            j <= v.len(),
            s@ =~= reversed(v@).take(v.len() - j),
        decreases j,
    {
        j -= 1;
        push_char(&mut s, v[j]);
        assert(s@ =~= reversed(v@).take(v.len() - j));
    }
    assert(reversed(v@).take(v.len() as int) =~= reversed(v@));
    s
}

proof fn lemma_reversed_push(s: Seq<char>, c: char)
    ensures
        reversed(s.push(c)) =~= seq![c] + reversed(s),
{
}

/// Decimal representation of `n` (what `n.to_string()` gives).
pub fn decimal(n: u64) -> (s: String)
    ensures
        s@ == decimal_spec(n as nat),
{
    let mut digits: Vec<char> = Vec::new();
    let mut m: u64 = n;
    loop
        invariant_except_break
            decimal_spec(n as nat) == decimal_spec(m as nat) + reversed(digits@),
            m == 0 ==> digits@.len() == 0 && n == 0,
        ensures
            decimal_spec(n as nat) == reversed(digits@),
        decreases m,
    {
        let d = m % 10;
        let c = ((d + 48) as u8) as char;
        proof {
            lemma_reversed_push(digits@, c);
            assert(c == decimal_digit(d as nat));
        }
        m = m / 10;
        digits.push(c);
        if m == 0 {
            assert(decimal_spec(n as nat) =~= reversed(digits@));
            break;
        }
        assert(decimal_spec(n as nat) =~= decimal_spec(m as nat) + reversed(digits@));
    }
    string_from_reversed(&digits)
}

/// Joining a relative or absolute path `name` onto `dir`, with `/` as the
/// separator: an absolute `name` replaces `dir`, an empty `dir` gives `name`,
/// and a separator is put between them unless `dir` already ends with one.
pub open spec fn join_spec(dir: Seq<char>, name: Seq<char>) -> Seq<char> {
    if name.len() > 0 && name[0] == '/' {
        name
    } else if dir.len() == 0 {
        name
    } else if dir.last() == '/' {
        dir + name
    } else {
        dir + seq!['/'] + name
    }
}

/// Joins `name` onto the directory `dir` (see `join_spec`).
pub fn join(dir: &str, name: &str) -> (s: String)
    ensures
        s@ == join_spec(dir@, name@),
{
    let dn = dir.unicode_len();
    let nn = name.unicode_len();
    if nn > 0 && name.get_char(0) == '/' {
        return String::from_str(name);
    }
    if dn == 0 {
        return String::from_str(name);
    }
    let mut s = String::from_str(dir);
    if dir.get_char(dn - 1) != '/' {
        push_char(&mut s, '/');
    }
    s.append(name);
    s
}

} // verus!
