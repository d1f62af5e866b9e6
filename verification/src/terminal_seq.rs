//! How a scheme becomes terminal escape sequences: which sequences each part
//! of the scheme (`Sequences`) is made of, and how the parts are put together
//! when some of them are left out. Writing one sequence for a colour (its
//! escape codes) is left to the caller.
use vstd::prelude::*;

use crate::args::Sequences;

verus! {

/// One escape sequence that sets a colour of the terminal: `Color(i)` sets
/// colour `i` of its palette, `Special(i)` one of its special colours.
#[derive(Debug, Clone, Copy, PartialEq, Eq, Structural)]
pub enum SeqCode {
    Color(u32),
    Special(u32),
}

/// The parts of a scheme in the order they are written: the colours 0 to 15,
/// then the background, the foreground and the cursor.
pub open spec fn part_order() -> Seq<Sequences> {
    seq![
        Sequences::Color0,
        Sequences::Color1,
        Sequences::Color2,
        Sequences::Color3,
        Sequences::Color4,
        Sequences::Color5,
        Sequences::Color6,
        Sequences::Color7,
        Sequences::Color8,
        Sequences::Color9,
        Sequences::Color10,
        Sequences::Color11,
        Sequences::Color12,
        Sequences::Color13,
        Sequences::Color14,
        Sequences::Color15,
        Sequences::Background,
        Sequences::Foreground,
        Sequences::Cursor,
    ]
}

/// The sequences that make up one part, in order. The background also sets
/// colours 232 and 257 and the special colours 11, 19 and 708; the
/// foreground the special colours 10 and 17 and colour 256; the cursor the
/// special colours 12 (cursor) and 13 (mouse).
pub open spec fn part_codes_spec(p: Sequences) -> Seq<SeqCode> {
    match p {
        Sequences::Color0 => seq![SeqCode::Color(0)],
        Sequences::Color1 => seq![SeqCode::Color(1)],
        Sequences::Color2 => seq![SeqCode::Color(2)],
        Sequences::Color3 => seq![SeqCode::Color(3)],
        Sequences::Color4 => seq![SeqCode::Color(4)],
        Sequences::Color5 => seq![SeqCode::Color(5)],
        Sequences::Color6 => seq![SeqCode::Color(6)],
        Sequences::Color7 => seq![SeqCode::Color(7)],
        Sequences::Color8 => seq![SeqCode::Color(8)],
        Sequences::Color9 => seq![SeqCode::Color(9)],
        Sequences::Color10 => seq![SeqCode::Color(10)],
        Sequences::Color11 => seq![SeqCode::Color(11)],
        Sequences::Color12 => seq![SeqCode::Color(12)],
        Sequences::Color13 => seq![SeqCode::Color(13)],
        Sequences::Color14 => seq![SeqCode::Color(14)],
        Sequences::Color15 => seq![SeqCode::Color(15)],
        Sequences::Background => seq![
            SeqCode::Special(11),
            SeqCode::Special(19),
            SeqCode::Color(232),
            SeqCode::Color(257),
            SeqCode::Special(708),
        ],
        Sequences::Foreground => seq![SeqCode::Special(10), SeqCode::Special(17), SeqCode::Color(256)],
        Sequences::Cursor => seq![SeqCode::Special(12), SeqCode::Special(13)],
    }
}

/// The parts of a scheme, in `part_order`.
pub fn sequence_parts() -> (v: Vec<Sequences>)
    ensures
        v@ == part_order(),
{
    let mut v: Vec<Sequences> = Vec::new();
    v.push(Sequences::Color0);
    v.push(Sequences::Color1);
    v.push(Sequences::Color2);
    v.push(Sequences::Color3);
    v.push(Sequences::Color4);
    v.push(Sequences::Color5);
    v.push(Sequences::Color6);
    v.push(Sequences::Color7);
    v.push(Sequences::Color8);
    v.push(Sequences::Color9);
    v.push(Sequences::Color10);
    v.push(Sequences::Color11);
    v.push(Sequences::Color12);
    v.push(Sequences::Color13);
    v.push(Sequences::Color14);
    v.push(Sequences::Color15);
    v.push(Sequences::Background);
    v.push(Sequences::Foreground);
    v.push(Sequences::Cursor);
    assert(v@ =~= part_order());
    v
}

/// The sequences that make up the part `p`.
pub fn part_codes(p: Sequences) -> (v: Vec<SeqCode>)
    ensures
        v@ == part_codes_spec(p),
{
    let v = match p {
        Sequences::Color0 => vec![SeqCode::Color(0)],
        Sequences::Color1 => vec![SeqCode::Color(1)],
        Sequences::Color2 => vec![SeqCode::Color(2)],
        Sequences::Color3 => vec![SeqCode::Color(3)],
        Sequences::Color4 => vec![SeqCode::Color(4)],
        Sequences::Color5 => vec![SeqCode::Color(5)],
        Sequences::Color6 => vec![SeqCode::Color(6)],
        Sequences::Color7 => vec![SeqCode::Color(7)],
        Sequences::Color8 => vec![SeqCode::Color(8)],
        Sequences::Color9 => vec![SeqCode::Color(9)],
        Sequences::Color10 => vec![SeqCode::Color(10)],
        Sequences::Color11 => vec![SeqCode::Color(11)],
        Sequences::Color12 => vec![SeqCode::Color(12)],
        Sequences::Color13 => vec![SeqCode::Color(13)],
        Sequences::Color14 => vec![SeqCode::Color(14)],
        Sequences::Color15 => vec![SeqCode::Color(15)],
        Sequences::Background => vec![
            SeqCode::Special(11),
            SeqCode::Special(19),
            SeqCode::Color(232),
            SeqCode::Color(257),
            SeqCode::Special(708),
        ],
        Sequences::Foreground => vec![SeqCode::Special(10), SeqCode::Special(17), SeqCode::Color(256)],
        Sequences::Cursor => vec![SeqCode::Special(12), SeqCode::Special(13)],
    };
    assert(v@ =~= part_codes_spec(p));
    v
}

/// The strings of `ss` one after the other.
pub open spec fn concat(ss: Seq<String>) -> Seq<char>
    decreases ss.len(),
{
    if ss.len() == 0 {
        Seq::empty()
    } else {
        concat(ss.drop_last()) + ss.last()@
    }
}

/// The first `k` parts, those in `remove` left out, each written as its
/// sequences `pieces[i]`.
pub open spec fn kept_parts(pieces: Seq<Vec<String>>, remove: Seq<Sequences>, k: nat) -> Seq<char>
    decreases k,
{
    if k == 0 {
        Seq::empty()
    } else {
        let i = k - 1;
        kept_parts(pieces, remove, i as nat) + if remove.contains(part_order()[i]) {
            Seq::empty()
        } else {
            concat(pieces[i]@)
        }
    }
}

fn removed(remove: &[Sequences], p: Sequences) -> (r: bool)
    ensures
        r == remove@.contains(p),
{
    let mut i: usize = 0;
    while i < remove.len()
        invariant
            i <= remove.len(),
            forall|j: int| 0 <= j < i ==> remove@[j] != p,
        decreases remove.len() - i,
    {
        if remove[i] == p {
            return true;
        }
        i += 1;
    }
    false
}

/// The terminal sequences of a scheme: `pieces[i]` holds the sequences that
/// write the part `part_order()[i]` (as `part_codes` lists them), and the
/// parts in `remove` are left out. Without `remove` every part is written,
/// colours first, then background, foreground and cursor; the parts that
/// are kept come in that order too.
pub fn to_seq(pieces: &Vec<Vec<String>>, remove: Option<&[Sequences]>) -> (r: String)
    requires
        pieces.len() == part_order().len(),
    ensures
        r@ == kept_parts(pieces@, match remove {
            Some(rm) => rm@,
            None => Seq::empty(),
        }, part_order().len()),
{
    let parts = sequence_parts();
    let ghost rm: Seq<Sequences> = match remove {
        Some(rm) => rm@,
        None => Seq::empty(),
    };
    let mut out = String::new();
    let mut i: usize = 0;
    while i < pieces.len()
        invariant
            i <= pieces.len(),
            pieces.len() == part_order().len(),
            parts@ == part_order(),
            rm == (match remove {
                Some(rm) => rm@,
                None => Seq::<Sequences>::empty(),
            }),
            out@ == kept_parts(pieces@, rm, i as nat),
        decreases pieces.len() - i,
    {
        let skip = match remove {
            Some(rm) => removed(rm, parts[i]),
            None => false,
        };
        if !skip {
            let piece = &pieces[i];
            let ghost before = out@;
            let mut j: usize = 0;
            while j < piece.len()
                invariant
                    j <= piece.len(),
                    out@ == before + concat(piece@.take(j as int)),
                decreases piece.len() - j,
            {
                out.append(piece[j].as_str());
                proof {
                    assert(piece@.take(j + 1).drop_last() =~= piece@.take(j as int));
                }
                j += 1;
            }
            proof {
                assert(piece@.take(piece@.len() as int) =~= piece@);
            }
        }
        i += 1;
    }
    out
}

} // verus!
