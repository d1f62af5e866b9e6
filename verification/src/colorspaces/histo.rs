//! Colour histograms: each colour of a colour space with the number of times
//! it appeared, and the ordering, clipping and counting done on them.
//!
//! The colours themselves are floating point and stay with the caller; here
//! a colour is any `Copy` value, and the decisions that need it (whether two
//! colours are alike, how two are mixed) are handed in as closures.
use vstd::prelude::*;

use super::{MAX_COLS, MIN_COLS};

verus! {

/// A colour of some colour space with how many times it appeared.
#[derive(Debug, Clone, Copy, PartialEq)]
pub struct Histo<C> {
    /// The colour.
    pub color: C,
    /// How many times it appeared.
    pub count: usize,
}

impl<C: Copy> Histo<C> {
    /// A colour with its count.
    pub fn new(color: C, count: usize) -> (h: Self)
        ensures
            h.color == color,
            h.count == count,
    {
        Histo { color, count }
    }

    /// A colour whose count is fixed at the largest one there is.
    pub fn new_no_count(color: C) -> (h: Self)
        ensures
            h.color == color,
            h.count == usize::MAX,
    {
        Histo { color, count: usize::MAX }
    }
}

/// Inserts `x` into `s` (ordered by count, largest first) after every entry
/// whose count is at least `x.count`: entries of equal count keep the order
/// in which they came.
pub open spec fn insert_by_count<C>(s: Seq<Histo<C>>, x: Histo<C>) -> Seq<Histo<C>>
    decreases s.len(),
{
    if s.len() == 0 {
        seq![x]
    } else if s.last().count >= x.count {
        s.push(x)
    } else {
        insert_by_count(s.drop_last(), x).push(s.last())
    }
}

/// The stable sort by count, most used first.
pub open spec fn sorted_by_count<C>(s: Seq<Histo<C>>) -> Seq<Histo<C>>
    decreases s.len(),
{
    if s.len() == 0 {
        s
    } else {
        insert_by_count(sorted_by_count(s.drop_last()), s.last())
    }
}

/// Whether the counts never grow from one entry to the next.
pub open spec fn counts_descend<C>(s: Seq<Histo<C>>) -> bool {
    forall|i: int, j: int| 0 <= i < j < s.len() ==> s[i].count >= s[j].count
}

/// The entries whose count is `n`, in their order.
pub open spec fn with_count<C>(s: Seq<Histo<C>>, n: usize) -> Seq<Histo<C>> {
    s.filter(|h: Histo<C>| h.count == n)
}

/// Scanning from the end of `s` down to `j`: inserting past the tail is the
/// same as inserting into the head and putting the tail back.
proof fn lemma_insert_split<C>(s: Seq<Histo<C>>, x: Histo<C>, j: int)
    requires
        0 <= j <= s.len(),
        forall|k: int| j <= k < s.len() ==> s[k].count < x.count,
    ensures
        insert_by_count(s, x) == insert_by_count(s.take(j), x) + s.skip(j),
    decreases s.len() - j,
{
    if j < s.len() {
        lemma_insert_split(s, x, j + 1);
        let t = s.take(j + 1);
        assert(t.drop_last() =~= s.take(j));
        assert(t.last() == s[j]);
        assert(insert_by_count(t, x) == insert_by_count(s.take(j), x).push(s[j]));
        assert(insert_by_count(s.take(j), x).push(s[j]) + s.skip(j + 1) =~= insert_by_count(
            s.take(j),
            x,
        ) + s.skip(j));
    } else {
        assert(s.take(j) =~= s);
        assert(s.skip(j) =~= Seq::<Histo<C>>::empty());
        assert(insert_by_count(s, x) + Seq::<Histo<C>>::empty() =~= insert_by_count(s, x));
    }
}

/// Inserts `x` into a histogram ordered by count, after the entries whose
/// count is at least its own.
fn insert_in_order<C: Copy>(v: &mut Vec<Histo<C>>, x: Histo<C>)
    ensures
        final(v)@ == insert_by_count(old(v)@, x),
{
    let mut j: usize = v.len();
    while j > 0 && v[j - 1].count < x.count
        invariant
            j <= v.len(),
            v@ == old(v)@,
            forall|k: int| j <= k < v.len() ==> v[k].count < x.count,
        decreases j,
    {
        j = j - 1;
    }
    proof {
        let s = v@;
        lemma_insert_split(s, x, j as int);
        let h = s.take(j as int);
        if j == 0 {
            assert(h.len() == 0);
        } else {
            assert(h.last() == s[j - 1]);
            assert(insert_by_count(h, x) == h.push(x));
        }
        assert(insert_by_count(h, x) + s.skip(j as int) =~= s.insert(j as int, x));
    }
    v.insert(j, x);
}

/// The entries of count `n` in a histogram of one entry.
proof fn lemma_with_count_one<C>(x: Histo<C>, n: usize)
    ensures
        with_count(seq![x], n) == (if x.count == n {
            seq![x]
        } else {
            Seq::<Histo<C>>::empty()
        }),
{
    reveal(Seq::filter);
    assert(seq![x].drop_last() =~= Seq::<Histo<C>>::empty());
    assert(seq![x].last() == x);
    assert(Seq::<Histo<C>>::empty().filter(|h: Histo<C>| h.count == n) =~= Seq::<Histo<C>>::empty());
    if x.count == n {
        assert(with_count(seq![x], n) =~= seq![x]);
    } else {
        assert(with_count(seq![x], n) =~= Seq::<Histo<C>>::empty());
    }
}

/// What inserting into an ordered histogram keeps: the order, every entry
/// (and the new one), and the order among entries of one count.
proof fn lemma_insert_by_count<C>(s: Seq<Histo<C>>, x: Histo<C>)
    requires
        counts_descend(s),
    ensures
        counts_descend(insert_by_count(s, x)),
        insert_by_count(s, x).len() == s.len() + 1,
        forall|k: int|
            0 <= k < insert_by_count(s, x).len() ==> (#[trigger] insert_by_count(s, x)[k] == x
                || exists|i: int| 0 <= i < s.len() && s[i] == insert_by_count(s, x)[k]),
        insert_by_count(s, x).to_multiset() == s.to_multiset().insert(x),
        forall|n: usize|
            #[trigger] with_count(insert_by_count(s, x), n) == with_count(s, n) + with_count(
                seq![x],
                n,
            ),
    decreases s.len(),
{
    broadcast use vstd::seq_lib::to_multiset_build;
    broadcast use Seq::filter_distributes_over_add;

    let r = insert_by_count(s, x);
    if s.len() == 0 {
        assert(r =~= s + seq![x]);
        assert(r =~= s.push(x));
        assert forall|n: usize| #[trigger] with_count(r, n) == with_count(s, n) + with_count(
            seq![x],
            n,
        ) by {
            assert(r =~= s + seq![x]);
        }
    } else if s.last().count >= x.count {
        assert(r == s.push(x));
        assert(s.push(x) =~= s + seq![x]);
        assert forall|k: int| 0 <= k < r.len() implies (#[trigger] r[k] == x || exists|i: int|
            0 <= i < s.len() && s[i] == r[k]) by {
            if k < s.len() {
                assert(s[k] == r[k]);
            }
        }
    } else {
        let d = s.drop_last();
        let l = s.last();
        assert(counts_descend(d));
        lemma_insert_by_count(d, x);
        let r1 = insert_by_count(d, x);
        assert(r == r1.push(l));
        assert forall|i: int, j: int| 0 <= i < j < r.len() implies r[i].count >= r[j].count by {
            if j == r1.len() {
                if r1[i] != x {
                    let i2 = choose|i2: int| 0 <= i2 < d.len() && d[i2] == r1[i];
                    assert(s[i2] == d[i2]);
                    assert(s[i2].count >= s[s.len() - 1].count);
                }
            } else {
                assert(r[i] == r1[i] && r[j] == r1[j]);
            }
        }
        assert forall|k: int| 0 <= k < r.len() implies (#[trigger] r[k] == x || exists|i: int|
            0 <= i < s.len() && s[i] == r[k]) by {
            if k < r1.len() {
                assert(r[k] == r1[k]);
                if r1[k] != x {
                    let i2 = choose|i2: int| 0 <= i2 < d.len() && d[i2] == r1[k];
                    assert(s[i2] == d[i2]);
                }
            } else {
                assert(s[s.len() - 1] == r[k]);
            }
        }
        assert(s =~= d.push(l));
        assert(r.to_multiset() == s.to_multiset().insert(x));
        assert forall|n: usize| #[trigger] with_count(r, n) == with_count(s, n) + with_count(
            seq![x],
            n,
        ) by {
            assert(r1.push(l) =~= r1 + seq![l]);
            assert(d.push(l) =~= d + seq![l]);
            let fx = with_count(seq![x], n);
            let fl = with_count(seq![l], n);
            lemma_with_count_one(x, n);
            lemma_with_count_one(l, n);
            assert(with_count(r1, n) == with_count(d, n) + fx);
            assert(with_count(r, n) == with_count(r1, n) + fl);
            assert(with_count(s, n) == with_count(d, n) + fl);
            assert(with_count(d, n) + fx + fl =~= with_count(d, n) + fl + fx);
        }
    }
}

/// What the stable sort by count keeps.
proof fn lemma_sorted_by_count<C>(s: Seq<Histo<C>>)
    ensures
        counts_descend(sorted_by_count(s)),
        sorted_by_count(s).len() == s.len(),
        sorted_by_count(s).to_multiset() == s.to_multiset(),
        forall|n: usize| #[trigger] with_count(sorted_by_count(s), n) == with_count(s, n),
    decreases s.len(),
{
    broadcast use vstd::seq_lib::to_multiset_build;
    broadcast use Seq::filter_distributes_over_add;

    if s.len() > 0 {
        let d = s.drop_last();
        lemma_sorted_by_count(d);
        lemma_insert_by_count(sorted_by_count(d), s.last());
        assert(s =~= d.push(s.last()));
        assert forall|n: usize| #[trigger] with_count(sorted_by_count(s), n) == with_count(s, n) by {
            assert(d.push(s.last()) =~= d + seq![s.last()]);
        }
    }
}

/// Sorting by count puts the most used colours first, loses and adds no
/// entry, and keeps the order among colours of equal count.
pub proof fn sort_by_count_laws<C>(s: Seq<Histo<C>>)
    ensures
        counts_descend(sorted_by_count(s)),
        sorted_by_count(s).to_multiset() == s.to_multiset(),
        forall|n: usize| #[trigger] with_count(sorted_by_count(s), n) == with_count(s, n),
{
    lemma_sorted_by_count(s);
}

/// A histogram already ordered by count is left as it is.
pub proof fn sort_by_count_keeps_ordered<C>(s: Seq<Histo<C>>)
    requires
        counts_descend(s),
    ensures
        sorted_by_count(s) == s,
    decreases s.len(),
{
    if s.len() > 0 {
        let d = s.drop_last();
        assert(counts_descend(d));
        sort_by_count_keeps_ordered(d);
        if d.len() > 0 {
            assert(d.last() == s[s.len() - 2]);
        }
        assert(d.push(s.last()) =~= s);
    }
}

/// Sorts a histogram by count, most used colours first. The sort is stable:
/// colours of equal count keep their order.
pub fn sort_by_count<C: Copy>(histo: Vec<Histo<C>>) -> (r: Vec<Histo<C>>)
    ensures
        r@ == sorted_by_count(histo@),
{
    let mut out: Vec<Histo<C>> = Vec::new();
    let n = histo.len();
    for i in 0..n
        invariant
            n == histo.len(),
            out@ == sorted_by_count(histo@.take(i as int)),
    {
        proof {
            let t = histo@.take(i + 1);
            assert(t.drop_last() =~= histo@.take(i as int));
            assert(t.last() == histo@[i as int]);
        }
        insert_in_order(&mut out, histo[i]);
    }
    proof {
        assert(histo@.take(n as int) =~= histo@);
    }
    out
}

/// The first `MAX_COLS` entries (all of them when there are fewer).
pub open spec fn clipped<C>(s: Seq<Histo<C>>) -> Seq<Histo<C>> {
    if s.len() <= MAX_COLS {
        s
    } else {
        s.take(MAX_COLS as int)
    }
}

/// After deduplication: the colours ordered by count, most used first.
pub fn process_deduped<C: Copy>(histo: Vec<Histo<C>>) -> (r: Vec<Histo<C>>)
    ensures
        r@ == sorted_by_count(histo@),
{
    sort_by_count(histo)
}

/// Keeps the first `MAX_COLS` colours, the most a scheme can hold.
pub fn clip_cols<C: Copy>(histo: Vec<Histo<C>>) -> (r: Vec<Histo<C>>)
    ensures
        r@ == clipped(histo@),
{
    let ghost before = histo@;
    let mut histo = histo;
    histo.truncate(MAX_COLS as usize);
    proof {
        if before.len() <= MAX_COLS {
            assert(histo@ =~= before);
        }
    }
    histo
}

/// Keeping the most used colours: the kept ones come from the histogram or
/// the generated ones, most used first, `MAX_COLS` of them at most (all of
/// them when there are fewer), and none left out is used more than one that
/// was kept.
pub proof fn keep_most_used_laws<C>(histo: Seq<Histo<C>>, generated: Seq<Histo<C>>)
    ensures
        ({
            let all = histo + generated;
            let sorted = sorted_by_count(all);
            let kept = clipped(sorted);
            &&& counts_descend(kept)
            &&& kept.len() == (if all.len() <= MAX_COLS { all.len() } else { MAX_COLS as nat })
            &&& forall|i: int| 0 <= i < kept.len() ==> all.contains(#[trigger] kept[i])
            &&& forall|i: int, j: int|
                0 <= i < kept.len() <= j < sorted.len() ==> sorted[j].count <= kept[i].count
        }),
{
    let all = histo + generated;
    let sorted = sorted_by_count(all);
    let kept = clipped(sorted);
    lemma_sorted_by_count(all);
    assert forall|i: int| 0 <= i < kept.len() implies all.contains(#[trigger] kept[i]) by {
        assert(kept[i] == sorted[i]);
        assert(sorted.contains(sorted[i]));
        vstd::seq_lib::to_multiset_contains(sorted, sorted[i]);
        vstd::seq_lib::to_multiset_contains(all, sorted[i]);
    }
    assert forall|i: int, j: int| 0 <= i < kept.len() <= j < sorted.len() implies sorted[j].count
        <= kept[i].count by {
        assert(kept[i] == sorted[i]);
    }
}

/// Completes the colours with generated ones and keeps the `MAX_COLS` most
/// used of all, most used first (colours of equal count in the order they
/// came, the gathered ones before the generated ones).
pub fn keep_most_used<C: Copy>(histo: Vec<Histo<C>>, generated: Vec<Histo<C>>) -> (r: Vec<Histo<C>>)
    ensures
        r@ == clipped(sorted_by_count(histo@ + generated@)),
{
    let mut histo = histo;
    let mut generated = generated;
    histo.append(&mut generated);
    let sorted = sort_by_count(histo);
    clip_cols(sorted)
}

/// The sum of the counts.
pub open spec fn total_count<C>(s: Seq<Histo<C>>) -> int
    decreases s.len(),
{
    if s.len() == 0 {
        0
    } else {
        total_count(s.drop_last()) + s.last().count
    }
}

/// How many of the colours went to entry `e`.
pub open spec fn slot_count(slot: Seq<int>, e: int) -> nat
    decreases slot.len(),
{
    if slot.len() == 0 {
        0
    } else {
        slot_count(slot.drop_last(), e) + if slot.last() == e {
            1nat
        } else {
            0nat
        }
    }
}

/// One colour `c` gathered: the entries' colours were `before` and become
/// `after`. `same` found `c` unlike each entry before `e`; `e` is either a
/// new entry holding `c`, or an entry whose colour `same` found alike,
/// which becomes what `blend` made of its colour and `c` when mixing, and
/// stays as it was otherwise.
pub open spec fn gather_step<C, F: Fn(&C, &C) -> bool, M: Fn(C, C) -> C>(
    c: C,
    same: F,
    blend: M,
    mix: bool,
    before: Seq<C>,
    e: int,
    after: Seq<C>,
) -> bool {
    &&& 0 <= e <= before.len()
    &&& forall|j: int| 0 <= j < e ==> #[trigger] same.ensures((&c, &before[j]), false)
    &&& if e == before.len() {
        after == before.push(c)
    } else {
        &&& same.ensures((&c, &before[e]), true)
        &&& after.len() == before.len()
        &&& forall|j: int| 0 <= j < before.len() && j != e ==> #[trigger] after[j] == before[j]
        &&& if mix {
            blend.ensures((before[e], c), after[e])
        } else {
            after[e] == before[e]
        }
    }
}

/// The first `slot.len()` colours were gathered into `r`, one after the
/// other: `trace[k]` holds the entries' colours before colour `k`, which
/// went to entry `slot[k]` (see `gather_step`). `r` holds the last colours,
/// and each count is the number of colours that went to the entry.
pub open spec fn gathered<C, F: Fn(&C, &C) -> bool, M: Fn(C, C) -> C>(
    colors: Seq<C>,
    same: F,
    blend: M,
    mix: bool,
    trace: Seq<Seq<C>>,
    slot: Seq<int>,
    r: Seq<Histo<C>>,
) -> bool {
    &&& slot.len() <= colors.len()
    &&& trace.len() == slot.len() + 1
    &&& trace[0].len() == 0
    &&& forall|k: int|
        #![trigger slot[k]]
        0 <= k < slot.len() ==> gather_step(colors[k], same, blend, mix, trace[k], slot[k], trace[k + 1])
    &&& r.len() == trace.last().len()
    &&& forall|e: int| 0 <= e < r.len() ==> (#[trigger] r[e]).color == trace.last()[e]
    &&& forall|e: int| 0 <= e < r.len() ==> (#[trigger] r[e]).count == slot_count(slot, e)
}

proof fn lemma_slot_count_push(slot: Seq<int>, x: int, e: int)
    ensures
        slot_count(slot.push(x), e) == slot_count(slot, e) + if x == e {
            1nat
        } else {
            0nat
        },
{
    assert(slot.push(x).drop_last() =~= slot);
}

proof fn lemma_slot_count_bound(slot: Seq<int>, e: int)
    ensures
        slot_count(slot, e) <= slot.len(),
    decreases slot.len(),
{
    if slot.len() > 0 {
        lemma_slot_count_bound(slot.drop_last(), e);
    }
}

proof fn lemma_slot_count_absent(slot: Seq<int>, e: int)
    requires
        forall|k: int| 0 <= k < slot.len() ==> slot[k] != e,
    ensures
        slot_count(slot, e) == 0,
    decreases slot.len(),
{
    if slot.len() > 0 {
        lemma_slot_count_absent(slot.drop_last(), e);
    }
}

proof fn lemma_total_count_push<C>(s: Seq<Histo<C>>, h: Histo<C>)
    ensures
        total_count(s.push(h)) == total_count(s) + h.count,
{
    assert(s.push(h).drop_last() =~= s);
}

proof fn lemma_total_count_update<C>(s: Seq<Histo<C>>, j: int, h: Histo<C>)
    requires
        0 <= j < s.len(),
    ensures
        total_count(s.update(j, h)) == total_count(s) - s[j].count + h.count,
    decreases s.len(),
{
    let u = s.update(j, h);
    if j == s.len() - 1 {
        assert(u.drop_last() =~= s.drop_last());
    } else {
        lemma_total_count_update(s.drop_last(), j, h);
        assert(u.drop_last() =~= s.drop_last().update(j, h));
    }
}

proof fn lemma_gather_extend<C, F: Fn(&C, &C) -> bool, M: Fn(C, C) -> C>(
    colors: Seq<C>,
    same: F,
    blend: M,
    mix: bool,
    trace: Seq<Seq<C>>,
    slot: Seq<int>,
    r: Seq<Histo<C>>,
    e: int,
    after: Seq<C>,
    r2: Seq<Histo<C>>,
)
    requires
        gathered(colors, same, blend, mix, trace, slot, r),
        slot.len() < colors.len(),
        gather_step(colors[slot.len() as int], same, blend, mix, trace.last(), e, after),
        r2.len() == after.len(),
        forall|x: int| 0 <= x < r2.len() ==> (#[trigger] r2[x]).color == after[x],
        forall|x: int| 0 <= x < r2.len() ==> (#[trigger] r2[x]).count == slot_count(slot.push(e), x),
    ensures
        gathered(colors, same, blend, mix, trace.push(after), slot.push(e), r2),
{
    let t2 = trace.push(after);
    let s2 = slot.push(e);
    assert forall|k: int|
        #![trigger s2[k]]
        0 <= k < s2.len() implies gather_step(colors[k], same, blend, mix, t2[k], s2[k], t2[k + 1]) by {
        if k < slot.len() {
            assert(s2[k] == slot[k]);
            assert(t2[k] == trace[k] && t2[k + 1] == trace[k + 1]);
            assert(gather_step(colors[k], same, blend, mix, trace[k], slot[k], trace[k + 1]));
        } else {
            assert(t2[k] == trace.last());
        }
    }
}

/// Gathers colours into a histogram: each colour is counted into the first
/// entry whose current colour `same` finds alike, and mixed into it with
/// `blend` when `mix` is set; when none is alike it opens a new entry with
/// count 1. The counts add up to the number of colours.
pub fn gather_cols<C: Copy, F: Fn(&C, &C) -> bool, M: Fn(C, C) -> C>(
    colors: &Vec<C>,
    mix: bool,
    same: &F,
    blend: &M,
) -> (r: Vec<Histo<C>>)
    requires
        forall|a: &C, b: &C| same.requires((a, b)),
        forall|a: C, b: C| blend.requires((a, b)),
    ensures
        exists|trace: Seq<Seq<C>>, slot: Seq<int>|
            slot.len() == colors.len() && gathered(colors@, *same, *blend, mix, trace, slot, r@),
        total_count(r@) == colors.len(),
        r.len() <= colors.len(),
        colors.len() > 0 ==> r.len() > 0,
{
    let mut histogram: Vec<Histo<C>> = Vec::new();
    let ghost mut trace: Seq<Seq<C>> = seq![Seq::empty()];
    let ghost mut slot: Seq<int> = Seq::empty();
    let n = colors.len();
    for k in 0..n
        invariant
            n == colors.len(),
            forall|a: &C, b: &C| same.requires((a, b)),
            forall|a: C, b: C| blend.requires((a, b)),
            slot.len() == k,
            gathered(colors@, *same, *blend, mix, trace, slot, histogram@),
            total_count(histogram@) == k,
            histogram.len() <= k,
            k > 0 ==> histogram.len() > 0,
    {
        let c = colors[k];
        let m = histogram.len();
        let mut j: usize = 0;
        let mut hit = false;
        while j < m && !hit
            invariant
                m == histogram.len(),
                j <= m,
                forall|a: &C, b: &C| same.requires((a, b)),
                hit ==> j < m && same.ensures((&c, &histogram@[j as int].color), true),
                forall|e: int| 0 <= e < j ==> same.ensures((&c, &histogram@[e].color), false),
            decreases m - j + if hit {
                0int
            } else {
                1int
            },
        {
            if same(&c, &histogram[j].color) {
                hit = true;
            } else {
                j = j + 1;
            }
        }
        let ghost before = trace.last();
        proof {
            assert forall|e: int| 0 <= e < j implies #[trigger] same.ensures((&c, &before[e]), false) by {
                assert(histogram@[e].color == before[e]);
            }
        }
        if hit {
            let old_h = histogram[j];
            proof {
                lemma_slot_count_bound(slot, j as int);
                assert(old_h.color == before[j as int]);
            }
            let color = if mix {
                blend(old_h.color, c)
            } else {
                old_h.color
            };
            let h = Histo { color, count: old_h.count + 1 };
            let ghost after = before.update(j as int, color);
            proof {
                lemma_total_count_update(histogram@, j as int, h);
                assert(gather_step(colors@[k as int], *same, *blend, mix, before, j as int, after));
                let r2 = histogram@.update(j as int, h);
                assert forall|x: int| 0 <= x < r2.len() implies (#[trigger] r2[x]).count == slot_count(
                    slot.push(j as int),
                    x,
                ) by {
                    lemma_slot_count_push(slot, j as int, x);
                }
                lemma_gather_extend(colors@, *same, *blend, mix, trace, slot, histogram@, j as int, after, r2);
            }
            histogram.set(j, h);
            proof {
                trace = trace.push(after);
                slot = slot.push(j as int);
            }
        } else {
            let h = Histo { color: c, count: 1 };
            let ghost after = before.push(c);
            proof {
                lemma_total_count_push(histogram@, h);
                assert(gather_step(colors@[k as int], *same, *blend, mix, before, m as int, after));
                let r2 = histogram@.push(h);
                assert forall|x: int| 0 <= x < r2.len() implies (#[trigger] r2[x]).count == slot_count(
                    slot.push(m as int),
                    x,
                ) by {
                    lemma_slot_count_push(slot, m as int, x);
                    if x == m {
                        assert forall|k2: int| 0 <= k2 < slot.len() implies slot[k2] != x by {
                            assert(gather_step(colors@[k2], *same, *blend, mix, trace[k2], slot[k2], trace[k2 + 1]));
                            lemma_trace_grows(colors@, *same, *blend, mix, trace, slot, k2);
                        }
                        lemma_slot_count_absent(slot, x);
                    }
                }
                lemma_gather_extend(colors@, *same, *blend, mix, trace, slot, histogram@, m as int, after, r2);
            }
            histogram.push(h);
            proof {
                trace = trace.push(after);
                slot = slot.push(m as int);
            }
        }
    }
    histogram
}

/// The entries only grow: colour `k` went to an entry that exists from then
/// on.
proof fn lemma_trace_grows<C, F: Fn(&C, &C) -> bool, M: Fn(C, C) -> C>(
    colors: Seq<C>,
    same: F,
    blend: M,
    mix: bool,
    trace: Seq<Seq<C>>,
    slot: Seq<int>,
    k: int,
)
    requires
        trace.len() == slot.len() + 1,
        forall|k2: int|
            #![trigger slot[k2]]
            0 <= k2 < slot.len() ==> gather_step(colors[k2], same, blend, mix, trace[k2], slot[k2], trace[k2 + 1]),
        0 <= k < slot.len(),
    ensures
        slot[k] < trace.last().len(),
    decreases slot.len() - k,
{
    assert(gather_step(colors[k], same, blend, mix, trace[k], slot[k], trace[k + 1]));
    lemma_trace_len_grows(colors, same, blend, mix, trace, slot, k + 1);
}

proof fn lemma_trace_len_grows<C, F: Fn(&C, &C) -> bool, M: Fn(C, C) -> C>(
    colors: Seq<C>,
    same: F,
    blend: M,
    mix: bool,
    trace: Seq<Seq<C>>,
    slot: Seq<int>,
    k: int,
)
    requires
        trace.len() == slot.len() + 1,
        forall|k2: int|
            #![trigger slot[k2]]
            0 <= k2 < slot.len() ==> gather_step(colors[k2], same, blend, mix, trace[k2], slot[k2], trace[k2 + 1]),
        0 <= k <= slot.len(),
    ensures
        trace[k].len() <= trace.last().len(),
    decreases slot.len() - k,
{
    if k < slot.len() {
        assert(gather_step(colors[k], same, blend, mix, trace[k], slot[k], trace[k + 1]));
        lemma_trace_len_grows(colors, same, blend, mix, trace, slot, k + 1);
    }
}

/// Gathers colours as [`gather_cols`] does, and keeps the histogram only
/// when it holds at least two colours.
pub fn init<C: Copy, F: Fn(&C, &C) -> bool, M: Fn(C, C) -> C>(
    colors: &Vec<C>,
    mix: bool,
    same: &F,
    blend: &M,
) -> (r: Option<Vec<Histo<C>>>)
    requires
        forall|a: &C, b: &C| same.requires((a, b)),
        forall|a: C, b: C| blend.requires((a, b)),
    ensures
        exists|h: Seq<Histo<C>>, trace: Seq<Seq<C>>, slot: Seq<int>|
            {
                &&& slot.len() == colors.len()
                &&& gathered(colors@, *same, *blend, mix, trace, slot, h)
                &&& total_count(h) == colors.len()
                &&& match r {
                    Some(v) => v@ == h && h.len() >= 2,
                    None => h.len() < 2,
                }
            },
{
    let h = gather_cols(colors, mix, same, blend);
    if h.len() < 2 {
        None
    } else {
        Some(h)
    }
}

/// Entry `k` belongs to the run that begins at `first[k]`: runs are
/// consecutive, the first begins at 0, and within a run `same` found each
/// colour alike to the run's first one, while each later run begins at a
/// colour it found unlike the first one of the run before.
pub open spec fn runs_by<C, F: Fn(&C, &C) -> bool>(s: Seq<Histo<C>>, same: F, first: Seq<int>) -> bool {
    &&& first.len() == s.len()
    &&& s.len() > 0 ==> first[0] == 0
    &&& forall|k: int| 0 <= k < s.len() ==> 0 <= #[trigger] first[k] <= k
    &&& forall|k: int| 0 <= k < s.len() ==> first[first[k]] == first[k]
    &&& forall|k: int|
        0 < k < s.len() ==> (#[trigger] first[k] == first[k - 1] || first[k] == k)
    &&& forall|k: int|
        0 < k < s.len() && first[k] == first[k - 1] ==> #[trigger] same.ensures(
            (&s[first[k]].color, &s[k].color),
            true,
        )
    &&& forall|k: int|
        0 < k < s.len() && first[k] == k ==> #[trigger] same.ensures(
            (&s[first[k - 1]].color, &s[k].color),
            false,
        )
}

/// The histogram with each run merged into its first entry: the first
/// entry's colour, and the sum of the run's counts.
pub open spec fn merged<C>(s: Seq<Histo<C>>, first: Seq<int>) -> Seq<Histo<C>>
    decreases s.len(),
{
    if s.len() == 0 || first.len() != s.len() {
        Seq::empty()
    } else {
        let m = merged(s.drop_last(), first.drop_last());
        let k = s.len() - 1;
        if first[k] == k || m.len() == 0 {
            m.push(s[k])
        } else {
            m.update(m.len() - 1, Histo { color: m.last().color, count: (m.last().count + s[k].count) as usize })
        }
    }
}

proof fn lemma_total_count_take<C>(s: Seq<Histo<C>>, k: int)
    requires
        0 <= k <= s.len(),
    ensures
        0 <= total_count(s.take(k)) <= total_count(s),
    decreases s.len() - k,
{
    if k < s.len() {
        lemma_total_count_take(s, k + 1);
        assert(s.take(k + 1).drop_last() =~= s.take(k));
        assert(s.take(k + 1).last() == s[k]);
        lemma_total_count_nonneg(s.take(k));
    } else {
        assert(s.take(k) =~= s);
        lemma_total_count_nonneg(s);
    }
}

proof fn lemma_total_count_nonneg<C>(s: Seq<Histo<C>>)
    ensures
        total_count(s) >= 0,
    decreases s.len(),
{
    if s.len() > 0 {
        lemma_total_count_nonneg(s.drop_last());
    }
}

/// Extending the runs by one entry that continues the run of `first[k-1]`
/// or begins a new one, as `same` decided.
proof fn lemma_runs_extend<C, F: Fn(&C, &C) -> bool>(
    s0: Seq<Histo<C>>,
    s1: Seq<Histo<C>>,
    same: F,
    first: Seq<int>,
    x: int,
)
    requires
        s0.len() > 0,
        s1.len() == s0.len() + 1,
        forall|t: int| 0 <= t < s0.len() ==> s1[t] == s0[t],
        runs_by(s0, same, first),
        x == first[s0.len() - 1] || x == s0.len(),
        x == first[s0.len() - 1] ==> same.ensures((&s1[x].color, &s1[s0.len() as int].color), true),
        x == s0.len() ==> same.ensures(
            (&s1[first[s0.len() - 1]].color, &s1[s0.len() as int].color),
            false,
        ),
    ensures
        runs_by(s1, same, first.push(x)),
{
    let f = first.push(x);
    let k = s0.len() as int;
    assert forall|t: int| 0 <= t < s1.len() implies 0 <= #[trigger] f[t] <= t by {
        if t < k {
            assert(f[t] == first[t]);
        }
    }
    assert forall|t: int| 0 <= t < s1.len() implies f[f[t]] == f[t] by {
        if t < k {
            assert(f[t] == first[t]);
            assert(f[first[t]] == first[first[t]]);
        } else {
            assert(f[t] == x);
            if x < k {
                assert(f[x] == first[x]);
            }
        }
    }
    assert forall|t: int| 0 < t < s1.len() implies (#[trigger] f[t] == f[t - 1] || f[t] == t) by {
        if t < k {
            assert(f[t] == first[t] && f[t - 1] == first[t - 1]);
        }
    }
    assert forall|t: int|
        0 < t < s1.len() && f[t] == f[t - 1] implies #[trigger] same.ensures(
        (&s1[f[t]].color, &s1[t].color),
        true,
    ) by {
        if t < k {
            assert(f[t] == first[t] && f[t - 1] == first[t - 1]);
            assert(s1[first[t]] == s0[first[t]]);
            assert(s1[t] == s0[t]);
            assert(same.ensures((&s0[first[t]].color, &s0[t].color), true));
        } else if x != k {
            assert(f[t - 1] == first[k - 1]);
        } else {
            assert(f[t - 1] == first[k - 1]);
            assert(first[k - 1] <= k - 1);
        }
    }
    assert forall|t: int|
        0 < t < s1.len() && f[t] == t implies #[trigger] same.ensures(
        (&s1[f[t - 1]].color, &s1[t].color),
        false,
    ) by {
        if t < k {
            assert(f[t] == first[t] && f[t - 1] == first[t - 1]);
            assert(s1[first[t - 1]] == s0[first[t - 1]]);
            assert(s1[t] == s0[t]);
            assert(same.ensures((&s0[first[t - 1]].color, &s0[t].color), false));
        } else {
            assert(f[t - 1] == first[k - 1]);
            if x != k {
                assert(first[k - 1] <= k - 1);
            }
        }
    }
}

/// The key by which a colour space orders its histogram before merging runs
/// of alike colours (integer parts of its coordinates, most significant
/// first).
pub type SortKey = (i64, i64, i64);

/// Whether key `a` comes before key `b`: the order of the tuples.
pub open spec fn key_lt(a: SortKey, b: SortKey) -> bool {
    ||| a.0 < b.0
    ||| a.0 == b.0 && a.1 < b.1
    ||| a.0 == b.0 && a.1 == b.1 && a.2 < b.2
}

/// Whether position `i` comes before position `j` in a stable sort by
/// `keys`: a smaller key, or the same key and an earlier position.
pub open spec fn stably_before(keys: Seq<SortKey>, i: int, j: int) -> bool {
    key_lt(keys[i], keys[j]) || (keys[i] == keys[j] && i < j)
}

/// Whether `order` lists the positions of `keys` as a stable sort by key
/// does. As `stably_before` is a strict total order on the positions, there
/// is exactly one such list.
pub open spec fn stable_order(keys: Seq<SortKey>, order: Seq<usize>) -> bool {
    &&& order.len() == keys.len()
    &&& forall|k: int| 0 <= k < order.len() ==> #[trigger] order[k] < keys.len()
    &&& forall|a: int, b: int| 0 <= a < b < order.len() ==> stably_before(keys, #[trigger] order[a] as int, #[trigger] order[b] as int)
}

fn key_less(a: SortKey, b: SortKey) -> (r: bool)
    ensures
        r == key_lt(a, b),
{
    a.0 < b.0 || (a.0 == b.0 && a.1 < b.1) || (a.0 == b.0 && a.1 == b.1 && a.2 < b.2)
}

proof fn lemma_total_count_insert<C>(s: Seq<Histo<C>>, p: int, h: Histo<C>)
    requires
        0 <= p <= s.len(),
    ensures
        total_count(s.insert(p, h)) == total_count(s) + h.count,
    decreases s.len(),
{
    if p == s.len() {
        assert(s.insert(p, h) =~= s.push(h));
        lemma_total_count_push(s, h);
    } else {
        lemma_total_count_insert(s.drop_last(), p, h);
        assert(s.insert(p, h).drop_last() =~= s.drop_last().insert(p, h));
    }
}

/// `histo` sorted stably by `keys`: `r[k]` is `histo[order[k]]` for the one
/// `order` that `stable_order` allows.
pub open spec fn sorted_by_keys<C>(histo: Seq<Histo<C>>, keys: Seq<SortKey>, r: Seq<Histo<C>>) -> bool {
    exists|order: Seq<usize>|
        stable_order(keys, order) && r.len() == order.len() && forall|k: int| 0 <= k < r.len() ==> #[trigger] r[k] == histo[order[k] as int]
}

/// Sorts a histogram stably by the keys of its entries (`keys[i]` is the key
/// of `histo[i]`, `sort_by_key`), as the colour spaces do before merging
/// runs of alike colours. The counts keep their total.
pub fn sort_by_keys<C: Copy>(histo: Vec<Histo<C>>, keys: &Vec<SortKey>) -> (r: Vec<Histo<C>>)
    requires
        keys.len() == histo.len(),
    ensures
        sorted_by_keys(histo@, keys@, r@),
        total_count(r@) == total_count(histo@),
{
    let n = keys.len();
    let mut order: Vec<usize> = Vec::new();
    let mut r: Vec<Histo<C>> = Vec::new();
    let mut i: usize = 0;
    while i < n
        invariant
            i <= n,
            n == keys@.len(),
            n == histo@.len(),
            order@.len() == i,
            r@.len() == i,
            forall|k: int| 0 <= k < order@.len() ==> #[trigger] order@[k] < i,
            forall|a: int, b: int| 0 <= a < b < order@.len() ==> stably_before(keys@, #[trigger] order@[a] as int, #[trigger] order@[b] as int),
            forall|k: int| 0 <= k < r@.len() ==> #[trigger] r@[k] == histo@[order@[k] as int],
            total_count(r@) == total_count(histo@.take(i as int)),
        decreases n - i,
    {
        let ki = keys[i];
        let mut p: usize = 0;
        while p < order.len() && !key_less(ki, keys[order[p]])
            invariant
                p <= order@.len(),
                i < n,
                n == keys@.len(),
                ki == keys@[i as int],
                forall|k: int| 0 <= k < order@.len() ==> #[trigger] order@[k] < i,
                forall|q: int| 0 <= q < p ==> !key_lt(ki, keys@[#[trigger] order@[q] as int]),
            decreases order@.len() - p,
        {
            p += 1;
        }
        let ghost old_order = order@;
        let ghost old_r = r@;
        proof {
            assert forall|q: int| p <= q < old_order.len() implies key_lt(ki, keys@[#[trigger] old_order[q] as int]) by {
                if q > p {
                    assert(stably_before(keys@, old_order[p as int] as int, old_order[q] as int));
                }
            }
        }
        order.insert(p, i);
        r.insert(p, histo[i]);
        proof {
            assert forall|a: int, b: int| 0 <= a < b < order@.len() implies stably_before(keys@, #[trigger] order@[a] as int, #[trigger] order@[b] as int) by {
                if a < p && b < p {
                    assert(order@[a] == old_order[a] && order@[b] == old_order[b]);
                } else if a < p && b == p {
                    assert(!key_lt(ki, keys@[old_order[a] as int]));
                } else if a < p {
                    assert(order@[a] == old_order[a] && order@[b] == old_order[b - 1]);
                } else if a == p {
                    assert(key_lt(ki, keys@[old_order[b - 1] as int]));
                } else {
                    assert(order@[a] == old_order[a - 1] && order@[b] == old_order[b - 1]);
                }
            }
            assert forall|k: int| 0 <= k < r@.len() implies #[trigger] r@[k] == histo@[order@[k] as int] by {
                if k < p {
                    assert(r@[k] == old_r[k] && order@[k] == old_order[k]);
                } else if k > p {
                    assert(r@[k] == old_r[k - 1] && order@[k] == old_order[k - 1]);
                }
            }
            lemma_total_count_insert(old_r, p as int, histo@[i as int]);
            assert(histo@.take(i + 1).drop_last() =~= histo@.take(i as int));
        }
        i += 1;
    }
    proof {
        assert(histo@.take(n as int) =~= histo@);
        assert(stable_order(keys@, order@) && r@.len() == order@.len() && forall|k: int| 0 <= k < r@.len() ==> #[trigger] r@[k] == histo@[order@[k] as int]);
    }
    r
}

/// Sorts a histogram stably by the keys of its entries, then merges each run
/// of alike neighbours into its first entry (`dedup_cols`): the result holds
/// no two alike neighbours, and its counts keep their total.
pub fn sort_dedup_cols<C: Copy, F: Fn(&C, &C) -> bool>(histo: Vec<Histo<C>>, keys: &Vec<SortKey>, same: &F) -> (r: Vec<Histo<C>>)
    requires
        keys.len() == histo.len(),
        forall|a: &C, b: &C| same.requires((a, b)),
        total_count(histo@) <= usize::MAX,
    ensures
        exists|sorted: Seq<Histo<C>>, first: Seq<int>|
            sorted_by_keys(histo@, keys@, sorted) && runs_by(sorted, *same, first) && r@ == merged(sorted, first),
        total_count(r@) == total_count(histo@),
        forall|i: int| 0 < i < r.len() ==> #[trigger] same.ensures((&r[i - 1].color, &r[i].color), false),
{
    let sorted = sort_by_keys(histo, keys);
    let ghost s = sorted@;
    let r = dedup_cols(sorted, same);
    proof {
        let first = choose|first: Seq<int>| runs_by(s, *same, first) && r@ == merged(s, first);
        assert(sorted_by_keys(histo@, keys@, s) && runs_by(s, *same, first) && r@ == merged(s, first));
    }
    r
}

/// Deduplicates a histogram ordered so that alike colours are neighbours:
/// each run of consecutive colours that `same` finds alike to the run's
/// first one becomes one entry, with the first one's colour and the sum of
/// the run's counts. No two neighbours of the result are alike, and the
/// counts add up to the same total.
#[verifier::spinoff_prover]
#[verifier::rlimit(30)]
pub fn dedup_cols<C: Copy, F: Fn(&C, &C) -> bool>(histo: Vec<Histo<C>>, same: &F) -> (r: Vec<Histo<C>>)
    requires
        forall|a: &C, b: &C| same.requires((a, b)),
        total_count(histo@) <= usize::MAX,
    ensures
        exists|first: Seq<int>| runs_by(histo@, *same, first) && r@ == merged(histo@, first),
        total_count(r@) == total_count(histo@),
        forall|i: int| 0 < i < r.len() ==> #[trigger] same.ensures((&r[i - 1].color, &r[i].color), false),
{
    let n = histo.len();
    if n == 0 {
        proof {
            let first = Seq::<int>::empty();
            assert(runs_by(histo@, *same, first));
            assert(merged(histo@, first) =~= histo@);
        }
        return histo;
    }
    let ghost s = histo@;
    let ghost mut first: Seq<int> = seq![0int];
    let mut out: Vec<Histo<C>> = Vec::new();
    let mut cur: Histo<C> = histo[0];
    let mut start: usize = 0;
    let mut k: usize = 1;
    proof {
        assert(runs_by(s.take(1), *same, first));
        let t = s.take(1);
        assert(t.drop_last() =~= Seq::<Histo<C>>::empty());
        assert(first.drop_last() =~= Seq::<int>::empty());
        assert(merged(t.drop_last(), first.drop_last()).len() == 0);
        assert(merged(t, first) =~= seq![s[0]]);
        assert(out@.push(cur) =~= seq![s[0]]);
        assert(total_count(t) == s[0].count) by {
            assert(total_count(t.drop_last()) == 0);
        }
        assert(total_count(out@) == 0);
    }
    while k < n
        invariant
            n == s.len(),
            histo@ == s,
            forall|a: &C, b: &C| same.requires((a, b)),
            total_count(s) <= usize::MAX,
            1 <= k <= n,
            start < k,
            first.len() == k,
            runs_by(s.take(k as int), *same, first),
            forall|t: int| start <= t < k ==> first[t] == start,
            cur.color == s[start as int].color,
            out@.push(cur) == merged(s.take(k as int), first),
            total_count(out@) + cur.count == total_count(s.take(k as int)),
            forall|i: int| 0 < i < out.len() ==> #[trigger] same.ensures((&out[i - 1].color, &out[i].color), false),
            out.len() > 0 ==> same.ensures((&out[out.len() - 1].color, &cur.color), false),
        decreases n - k,
    {
        let ghost first0 = first;
        let ghost s0 = s.take(k as int);
        let ghost s1 = s.take(k + 1);
        let ghost out0 = out@;
        let ghost cur0 = cur;
        proof {
            assert(s1.drop_last() =~= s0);
            assert(s1.last() == s[k as int]);
            lemma_total_count_take(s, k + 1);
            lemma_total_count_nonneg(out0);
            lemma_total_count_push(out0, cur0);
        }
        let next = histo[k];
        if same(&cur.color, &next.color) {
            cur = Histo { color: cur.color, count: cur.count + next.count };
            proof {
                first = first.push(start as int);
                lemma_runs_extend(s0, s1, *same, first0, start as int);
                assert(first.drop_last() =~= first0);
                let m = merged(s0, first0);
                assert(m == out0.push(cur0));
                assert(merged(s1, first) == m.update(m.len() - 1, Histo { color: m.last().color, count: (m.last().count + s[k as int].count) as usize }));
                assert(out@.push(cur) =~= merged(s1, first));
                lemma_total_count_push(out0, cur);
            }
        } else {
            out.push(cur);
            cur = next;
            proof {
                first = first.push(k as int);
                lemma_runs_extend(s0, s1, *same, first0, k as int);
                assert(first.drop_last() =~= first0);
                assert(merged(s1, first) == merged(s0, first0).push(s[k as int]));
                assert(out@.push(cur) =~= merged(s1, first));
                lemma_total_count_push(out@, cur);
                assert forall|i: int| 0 < i < out.len() implies #[trigger] same.ensures(
                    (&out[i - 1].color, &out[i].color),
                    false,
                ) by {
                    if i < out.len() - 1 {
                        assert(out[i - 1] == out0[i - 1] && out[i] == out0[i]);
                    } else {
                        assert(out[i] == cur0);
                        assert(out[i - 1] == out0[out0.len() - 1]);
                    }
                }
            }
            start = k;
        }
        k = k + 1;
    }
    let ghost out0 = out@;
    out.push(cur);
    proof {
        assert(s.take(n as int) =~= s);
        lemma_total_count_push(out0, cur);
        assert forall|i: int| 0 < i < out.len() implies #[trigger] same.ensures(
            (&out[i - 1].color, &out[i].color),
            false,
        ) by {
            if i < out.len() - 1 {
                assert(out[i - 1] == out0[i - 1] && out[i] == out0[i]);
            } else {
                assert(out[i - 1] == out0[out0.len() - 1]);
            }
        }
    }
    out
}

/// Colours that each appeared once.
pub open spec fn counted_once<C>(colors: Seq<C>) -> Seq<Histo<C>> {
    Seq::new(colors.len(), |i: int| Histo { color: colors[i], count: 1 })
}

/// Each colour as an entry of count 1.
pub fn each_once<C: Copy>(colors: &Vec<C>) -> (r: Vec<Histo<C>>)
    ensures
        r@ == counted_once(colors@),
{
    let mut r: Vec<Histo<C>> = Vec::new();
    for i in 0..colors.len()
        invariant
            r@ == counted_once(colors@.take(i as int)),
    {
        r.push(Histo { color: colors[i], count: 1 });
        proof {
            assert(r@ =~= counted_once(colors@.take(i + 1)));
        }
    }
    proof {
        assert(colors@.take(colors.len() as int) =~= colors@);
    }
    r
}

/// With only two colours gathered: the colours generated from them, each
/// counted once, complete the histogram, and the `MAX_COLS` most used are
/// kept, most used first.
pub fn fallback_monochromatic<C: Copy>(histo: Vec<Histo<C>>, generated: &Vec<C>) -> (r: Vec<
    Histo<C>,
>)
    ensures
        r@ == clipped(sorted_by_count(histo@ + counted_once(generated@))),
{
    let new = each_once(generated);
    keep_most_used(histo, new)
}

/// The pairs of positions below `i` in a histogram of `n` entries, in the
/// order of combinations: (0, 1), (0, 2), ..., (1, 2), ...
pub open spec fn pairs_below(n: usize, i: usize) -> Seq<(usize, usize)>
    decreases i,
{
    if i == 0 {
        Seq::empty()
    } else {
        pairs_below(n, (i - 1) as usize) + pair_row(n, (i - 1) as usize)
    }
}

/// The pairs whose first position is `i`.
pub open spec fn pair_row(n: usize, i: usize) -> Seq<(usize, usize)> {
    if i + 1 >= n {
        Seq::empty()
    } else {
        Seq::new((n - i - 1) as nat, |t: int| (i, (i + 1 + t) as usize))
    }
}

/// Every pair of positions of a histogram of `n` entries, in combination
/// order.
pub fn combinations2(n: usize) -> (r: Vec<(usize, usize)>)
    ensures
        r@ == pairs_below(n, n),
{
    let mut r: Vec<(usize, usize)> = Vec::new();
    for i in 0..n
        invariant
            r@ == pairs_below(n, i),
    {
        let ghost before = r@;
        let mut j = i + 1;
        while j < n
            invariant
                i < n,
                i + 1 <= j <= n,
                r@ == before + Seq::new((j - i - 1) as nat, |t: int| (i, (i + 1 + t) as usize)),
            decreases n - j,
        {
            r.push((i, j));
            proof {
                assert(r@ =~= before + Seq::new((j + 1 - i - 1) as nat, |t: int| (i, (i + 1 + t) as usize)));
            }
            j = j + 1;
        }
        proof {
            if i + 1 >= n {
                assert(r@ =~= before + pair_row(n, i));
            } else {
                assert(r@ =~= before + pair_row(n, i));
            }
            assert(pairs_below(n, (i + 1) as usize) == pairs_below(n, i) + pair_row(n, i));
        }
    }
    r
}

/// A pair of distinct positions of a histogram of `n` entries, in order.
pub open spec fn pair_in(pr: (usize, usize), n: usize) -> bool {
    pr.0 < pr.1 && pr.1 < n
}

proof fn lemma_pairs_in_range(n: usize, i: usize)
    requires
        i <= n,
    ensures
        forall|p: int| 0 <= p < pairs_below(n, i).len() ==> pair_in(#[trigger] pairs_below(n, i)[p], n),
    decreases i,
{
    if i > 0 {
        lemma_pairs_in_range(n, (i - 1) as usize);
        let a = pairs_below(n, (i - 1) as usize);
        let b = pair_row(n, (i - 1) as usize);
        assert(pairs_below(n, i) == a + b);
        assert forall|p: int| 0 <= p < (a + b).len() implies pair_in(#[trigger] (a + b)[p], n) by {
            if p >= a.len() {
                let t = p - a.len();
                assert((a + b)[p] == b[t]);
                assert(b[t] == ((i - 1) as usize, (i + t) as usize));
            } else {
                assert((a + b)[p] == a[p]);
                assert(pair_in(a[p], n));
            }
        }
    }
}

/// `piece` is what gathering (without mixing) the colours that
/// `interpolate` made between `a` and `b` gave.
pub open spec fn piece_from<C, G: Fn(C, C) -> Vec<C>, F: Fn(&C, &C) -> bool, M: Fn(C, C) -> C>(
    a: C,
    b: C,
    interpolate: G,
    same: F,
    blend: M,
    piece: Seq<Histo<C>>,
) -> bool {
    exists|cols: Vec<C>, trace: Seq<Seq<C>>, slot: Seq<int>|
        #![trigger interpolate.ensures((a, b), cols), gathered(cols@, same, blend, false, trace, slot, piece)]
        interpolate.ensures((a, b), cols) && slot.len() == cols.len() && gathered(
            cols@,
            same,
            blend,
            false,
            trace,
            slot,
            piece,
        )
}

/// The colours generated for a histogram: one piece for each pair of its
/// colours, in combination order, until the histogram and the pieces hold
/// `MIN_COLS` colours (or the pairs run out).
pub open spec fn generated_from<C, G: Fn(C, C) -> Vec<C>, F: Fn(&C, &C) -> bool, M: Fn(C, C) -> C>(
    histo: Seq<Histo<C>>,
    interpolate: G,
    same: F,
    blend: M,
    pieces: Seq<Seq<Histo<C>>>,
) -> bool {
    let pairs = pairs_below(histo.len() as usize, histo.len() as usize);
    &&& pieces.len() <= pairs.len()
    &&& forall|p: int|
        0 <= p < pieces.len() ==> piece_from(
            histo[pairs[p].0 as int].color,
            histo[pairs[p].1 as int].color,
            interpolate,
            same,
            blend,
            #[trigger] pieces[p],
        )
    &&& forall|p: int|
        0 <= p && p + 1 < pieces.len() ==> histo.len() + (#[trigger] pieces.take(p + 1)).flatten().len()
            < MIN_COLS
    &&& pieces.len() < pairs.len() ==> histo.len() + pieces.flatten().len() >= MIN_COLS
}

/// Generates colours when too few were gathered: for each pair of the
/// gathered colours, in combination order, the colours `interpolate` makes
/// between them are gathered (without mixing) and added, until there are
/// `MIN_COLS` colours with the gathered ones.
pub fn color_generator<C: Copy, G: Fn(C, C) -> Vec<C>, F: Fn(&C, &C) -> bool, M: Fn(C, C) -> C>(
    histo: &Vec<Histo<C>>,
    interpolate: &G,
    same: &F,
    blend: &M,
) -> (r: Vec<Histo<C>>)
    requires
        forall|a: C, b: C| interpolate.requires((a, b)),
        forall|a: &C, b: &C| same.requires((a, b)),
        forall|a: C, b: C| blend.requires((a, b)),
    ensures
        exists|pieces: Seq<Seq<Histo<C>>>|
            generated_from(histo@, *interpolate, *same, *blend, pieces) && r@ == pieces.flatten(),
{
    broadcast use Seq::lemma_flatten_push;

    let n = histo.len();
    let pairs = combinations2(n);
    proof {
        lemma_pairs_in_range(n, n);
    }
    let mut new_cols: Vec<Histo<C>> = Vec::new();
    let ghost mut pieces: Seq<Seq<Histo<C>>> = Seq::empty();
    let mut p: usize = 0;
    let mut done = false;
    while p < pairs.len() && !done
        invariant
            n == histo.len(),
            pairs@ == pairs_below(n, n),
            forall|q: int| 0 <= q < pairs@.len() ==> pair_in(#[trigger] pairs@[q], n),
            forall|a: C, b: C| interpolate.requires((a, b)),
            forall|a: &C, b: &C| same.requires((a, b)),
            forall|a: C, b: C| blend.requires((a, b)),
            p <= pairs.len(),
            pieces.len() == p,
            new_cols@ == pieces.flatten(),
            forall|q: int|
                0 <= q < pieces.len() ==> piece_from(
                    histo@[pairs@[q].0 as int].color,
                    histo@[pairs@[q].1 as int].color,
                    *interpolate,
                    *same,
                    *blend,
                    #[trigger] pieces[q],
                ),
            forall|q: int|
                0 <= q && q + 1 < pieces.len() ==> n + (#[trigger] pieces.take(q + 1)).flatten().len()
                    < MIN_COLS,
            done ==> n + new_cols.len() >= MIN_COLS,
            !done ==> p > 0 ==> n + new_cols.len() < MIN_COLS,
        decreases pairs.len() - p,
    {
        let (i, j) = pairs[p];
        let cols = interpolate(histo[i].color, histo[j].color);
        let mut g = gather_cols(&cols, false, same, blend);
        let ghost piece = g@;
        let ghost before = pieces;
        proof {
            pieces = pieces.push(piece);
            before.lemma_flatten_push(piece);
            assert(piece_from(histo@[i as int].color, histo@[j as int].color, *interpolate, *same, *blend, piece));
            assert forall|q: int| 0 <= q && q + 1 < pieces.len() implies n + (#[trigger] pieces.take(
                q + 1,
            )).flatten().len() < MIN_COLS by {
                if q + 1 < before.len() {
                    assert(pieces.take(q + 1) =~= before.take(q + 1));
                } else {
                    assert(pieces.take(q + 1) =~= before);
                }
            }
        }
        new_cols.append(&mut g);
        if n >= MIN_COLS as usize || new_cols.len() >= MIN_COLS as usize - n {
            done = true;
        }
        p = p + 1;
    }
    proof {
        if pieces.len() < pairs@.len() {
            assert(done);
        }
    }
    new_cols
}

/// When too few colours were gathered: generated ones complete them (see
/// [`color_generator`]) and the `MAX_COLS` most used are kept, most used
/// first.
pub fn fallback<C: Copy, G: Fn(C, C) -> Vec<C>, F: Fn(&C, &C) -> bool, M: Fn(C, C) -> C>(
    histo: Vec<Histo<C>>,
    interpolate: &G,
    same: &F,
    blend: &M,
) -> (r: Vec<Histo<C>>)
    requires
        forall|a: C, b: C| interpolate.requires((a, b)),
        forall|a: &C, b: &C| same.requires((a, b)),
        forall|a: C, b: C| blend.requires((a, b)),
    ensures
        exists|pieces: Seq<Seq<Histo<C>>>|
            generated_from(histo@, *interpolate, *same, *blend, pieces) && r@ == clipped(
                sorted_by_count(histo@ + pieces.flatten()),
            ),
{
    let new = color_generator(&histo, interpolate, same, blend);
    keep_most_used(histo, new)
}

} // verus!
