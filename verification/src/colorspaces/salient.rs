//! The structure of the salience colour space's histogram: which entry
//! stands for the background, where it is taken out and put back while the
//! other colours are scored, filtered and clipped. The scores and the
//! colours are floating point and stay with the caller, who hands in the
//! sorting and filtering as closures.
use vstd::prelude::*;

use super::histo::{clipped, Histo};
use super::MAX_COLS;

verus! {

/// The position of the most used colour: the last one of the largest count.
pub fn most_counted<C: Copy>(histo: &Vec<Histo<C>>) -> (i: usize)
    requires
        histo.len() > 0,
    ensures
        i < histo.len(),
        forall|j: int| 0 <= j < histo.len() ==> histo[j].count <= histo[i as int].count,
        forall|j: int| i < j < histo.len() ==> histo[j].count < histo[i as int].count,
{
    let mut best: usize = 0;
    let mut k: usize = 1;
    while k < histo.len()
        invariant
            histo.len() > 0,
            best < k <= histo.len(),
            forall|j: int| 0 <= j < k ==> histo[j].count <= histo[best as int].count,
            forall|j: int| best < j < k ==> histo[j].count < histo[best as int].count,
        decreases histo.len() - k,
    {
        if histo[k].count >= histo[best].count {
            best = k;
        }
        k = k + 1;
    }
    best
}

/// Where the background entry goes back: after the colours that clipping
/// keeps, or at the end when there are fewer.
pub open spec fn background_slot_spec(len: int) -> int {
    if len > MAX_COLS - 1 {
        MAX_COLS - 1
    } else {
        len
    }
}

/// Where the background entry goes back in a histogram of `len` colours.
pub fn background_slot(len: usize) -> (s: usize)
    ensures
        s == background_slot_spec(len as int),
{
    let max_cols = (MAX_COLS - 1) as usize;
    if len > max_cols {
        max_cols
    } else {
        len
    }
}

/// The background entry put back at `background_slot` is still there, at
/// that place, once the first `MAX_COLS` entries are kept.
pub proof fn background_survives_clipping<C>(colors: Seq<Histo<C>>, bg: Histo<C>)
    ensures
        ({
            let slot = background_slot_spec(colors.len() as int);
            let r = clipped(colors.insert(slot, bg));
            &&& slot < r.len()
            &&& r[slot] == bg
            &&& forall|i: int| 0 <= i < slot ==> r[i] == colors[i]
        }),
{
}

/// Where the background entry stands before clipping: at `MAX_COLS - 1`
/// when there are more than `MAX_COLS` colours, else last.
pub open spec fn background_index_spec(len: int) -> int {
    if len > MAX_COLS {
        MAX_COLS - 1
    } else {
        len - 1
    }
}

/// After deduplication: the most used colour is taken out as the
/// background, the other colours are ordered by `order` (their salience
/// score against the background), and the background goes back at
/// `background_slot`, so that clipping keeps it as the least salient.
pub fn process_deduped<C: Copy, S: Fn(Vec<Histo<C>>, Histo<C>) -> Vec<Histo<C>>>(
    histo: Vec<Histo<C>>,
    order: &S,
) -> (r: Vec<Histo<C>>)
    requires
        histo.len() > 0,
        forall|v: Vec<Histo<C>>, bg: Histo<C>| order.requires((v, bg)),
    ensures
        exists|i: int, rest: Vec<Histo<C>>, sorted: Vec<Histo<C>>|
            {
                &&& 0 <= i < histo.len()
                &&& forall|j: int| 0 <= j < histo.len() ==> histo[j].count <= histo[i].count
                &&& forall|j: int| i < j < histo.len() ==> histo[j].count < histo[i].count
                &&& rest@ == histo@.remove(i)
                &&& order.ensures((rest, histo[i]), sorted)
                &&& r@ == sorted@.insert(background_slot_spec(sorted.len() as int), histo[i])
            },
{
    let i = most_counted(&histo);
    let ghost h0 = histo@;
    let mut histo = histo;
    let bg = histo.remove(i);
    let ghost removed = histo@;
    let mut sorted = order(histo, bg);
    let ghost sorted0 = sorted;
    let slot = background_slot(sorted.len());
    sorted.insert(slot, bg);
    proof {
        assert(removed == h0.remove(i as int));
        assert(sorted@ == sorted0@.insert(background_slot_spec(sorted0.len() as int), h0[i as int]));
    }
    sorted
}

/// The entries for which `keep` said yes, in their order.
pub open spec fn kept_by<C>(s: Seq<Histo<C>>, keep: Seq<bool>) -> Seq<Histo<C>>
    decreases s.len(),
{
    if s.len() == 0 || keep.len() == 0 {
        Seq::empty()
    } else {
        let rest = kept_by(s.drop_last(), keep.drop_last());
        if keep.last() {
            rest.push(s.last())
        } else {
            rest
        }
    }
}

/// Clipping: the background entry (see `background_index_spec`) is taken
/// out; `measure` looks at it and the other colours once (the lightness
/// that the background will have), and the colours that `keep` refuses
/// against that measure (too close to the background) are dropped; the
/// background goes back at `background_slot`, and the first `MAX_COLS` are
/// kept.
pub fn clip_cols<C: Copy, P, T: Fn(&Vec<Histo<C>>, Histo<C>) -> P, K: Fn(&Histo<C>, &P) -> bool>(
    histo: Vec<Histo<C>>,
    measure: &T,
    keep: &K,
) -> (r: Vec<Histo<C>>)
    requires
        histo.len() > 0,
        forall|v: &Vec<Histo<C>>, bg: Histo<C>| measure.requires((v, bg)),
        forall|h: &Histo<C>, p: &P| keep.requires((h, p)),
    ensures
        ({
            let b = background_index_spec(histo.len() as int);
            let rest = histo@.remove(b);
            exists|v: Vec<Histo<C>>, p: P, answers: Seq<bool>|
                {
                    &&& v@ == rest
                    &&& measure.ensures((&v, histo[b]), p)
                    &&& answers.len() == rest.len()
                    &&& forall|j: int| 0 <= j < rest.len() ==> #[trigger] keep.ensures((&rest[j], &p), answers[j])
                    &&& r@ == clipped(
                        kept_by(rest, answers).insert(
                            background_slot_spec(kept_by(rest, answers).len() as int),
                            histo[b],
                        ),
                    )
                }
        }),
{
    let ghost h0 = histo@;
    let n = histo.len();
    let b: usize = if n > MAX_COLS as usize {
        (MAX_COLS - 1) as usize
    } else {
        n - 1
    };
    let mut histo = histo;
    let bg = histo.remove(b);
    let ghost rest = histo@;
    let ghost hv: Vec<Histo<C>> = histo;
    let p = measure(&histo, bg);
    let mut kept: Vec<Histo<C>> = Vec::new();
    let ghost mut answers: Seq<bool> = Seq::empty();
    let m = histo.len();
    for k in 0..m
        invariant
            m == histo.len(),
            histo@ == rest,
            forall|h: &Histo<C>, p: &P| keep.requires((h, p)),
            answers.len() == k,
            forall|j: int| 0 <= j < k ==> #[trigger] keep.ensures((&rest[j], &p), answers[j]),
            kept@ == kept_by(rest.take(k as int), answers),
    {
        let h = histo[k];
        let yes = keep(&h, &p);
        let ghost before = answers;
        proof {
            answers = answers.push(yes);
            let t = rest.take(k + 1);
            assert(t.drop_last() =~= rest.take(k as int));
            assert(answers.drop_last() =~= before);
        }
        if yes {
            kept.push(h);
        }
    }
    proof {
        assert(rest.take(m as int) =~= rest);
        assert(bg == h0[b as int]);
        assert(rest == h0.remove(b as int));
    }
    let slot = background_slot(kept.len());
    kept.insert(slot, bg);
    let mut out = kept;
    let ghost full = out@;
    out.truncate(MAX_COLS as usize);
    proof {
        if full.len() <= MAX_COLS {
            assert(out@ =~= full);
        }
        let bb = background_index_spec(h0.len() as int);
        assert(bb == b);
        assert(hv@ == rest);
        assert(measure.ensures((&hv, h0[bb]), p));
        assert(out@ == clipped(
            kept_by(rest, answers).insert(background_slot_spec(kept_by(rest, answers).len() as int), h0[bb]),
        ));
    }
    out
}

/// The palette's order: the background entry (last after clipping) first,
/// then the other colours as `order` sorts them against it.
pub fn sort_col<C: Copy, S: Fn(Vec<Histo<C>>, Histo<C>) -> Vec<Histo<C>>>(histo: Vec<Histo<C>>, order: &S) -> (r: Vec<
    Histo<C>,
>)
    requires
        histo.len() > 0,
        forall|v: Vec<Histo<C>>, bg: Histo<C>| order.requires((v, bg)),
    ensures
        exists|rest: Vec<Histo<C>>, sorted: Vec<Histo<C>>|
            rest@ == histo@.drop_last() && order.ensures((rest, histo@.last()), sorted) && r@ == seq![
                histo@.last(),
            ] + sorted@,
{
    let ghost h0 = histo@;
    let mut histo = histo;
    let bg = match histo.pop() {
        Some(b) => b,
        None => {
            proof {
                assert(false);
            }
            return histo;
        },
    };
    proof {
        assert(histo@ == h0.drop_last());
    }
    let mut sorted = order(histo, bg);
    let ghost s0 = sorted@;
    sorted.insert(0, bg);
    proof {
        assert(sorted@ =~= seq![h0.last()] + s0);
    }
    sorted
}

} // verus!
