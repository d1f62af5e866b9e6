//! The dynamic threshold search: which thresholds are tried, in what order,
//! and what each result decides. The colour work of each try happens in the
//! program around this library (it is floating point).
use vstd::prelude::*;

use std::collections::HashMap;
use vstd::std_specs::iter::IteratorSpec;

use super::{MAX_COLS, MIN_COLS};

verus! {

/// The thresholds tried by the dynamic search, from the middle outwards.
pub open spec fn search_order() -> Seq<u8> {
    seq![
        14u8, 16, 13, 17, 12, 18, 11, 19, 10, 20, 9, 21, 8, 22, 7, 23, 6, 24, 5, 25, 4, 26, 3, 27, 2, 28, 29,
        30, 31, 32, 33, 34, 35, 36, 37, 38, 39, 40, 41, 42, 43, 44,
    ]
}

/// The threshold at which the dynamic search gives up.
pub const MIN_THRESHOLD: u8 = 2;

/// The colour counts seen so far, each with the thresholds that gave it in
/// the order they were seen.
pub open spec fn counts_view(m: Map<usize, Vec<u8>>) -> Map<usize, Seq<u8>> {
    m.map_values(|v: Vec<u8>| v@)
}

/// Whether `k` is the largest count recorded.
pub open spec fn is_max_count(v: Map<usize, Seq<u8>>, k: usize) -> bool {
    v.contains_key(k) && forall|j: usize| #[trigger] v.contains_key(j) ==> j <= k
}

/// The largest count recorded.
pub open spec fn max_count(v: Map<usize, Seq<u8>>) -> usize {
    choose|k: usize| is_max_count(v, k)
}

/// Records that threshold `th` gave `len` colours: appended to the
/// thresholds of that count, or a new count.
pub open spec fn record_count(v: Map<usize, Seq<u8>>, len: usize, th: u8) -> Map<usize, Seq<u8>> {
    if v.contains_key(len) {
        v.insert(len, v[len].push(th))
    } else {
        v.insert(len, seq![th])
    }
}

/// The thresholds recorded for a count.
pub open spec fn thresholds_of(v: Map<usize, Seq<u8>>, len: usize) -> Seq<u8> {
    v[len]
}

/// Whether a result of `len` colours is kept for the fallback generator:
/// two colours at least (the generators make variants of two gathered
/// colours), and fewer than `MIN_COLS`.
pub open spec fn kept_spec(len: Option<usize>) -> bool {
    match len {
        Some(n) => 2 <= n < MIN_COLS,
        None => false,
    }
}

/// Whether a result of `len` colours is kept for the fallback generator.
pub fn kept_for_fallback(len: Option<usize>) -> (r: bool)
    ensures
        r == kept_spec(len),
{
    match len {
        Some(n) => 2 <= n && n < MIN_COLS as usize,
        None => false,
    }
}

/// What feeding the result `len` (of the expected threshold) to the search
/// `s` does: `s2` is the search afterwards and `r` the step. A count between
/// `MIN_COLS` and `MAX_COLS` is `Found`, and nothing else changes but the
/// threshold. Otherwise the count is recorded (and kept for the fallback
/// generator when `kept_spec` holds of it); when there were no colours, a
/// threshold below 10 and a largest recorded count between 2 and `MIN_COLS`
/// (excluded), the threshold becomes the median of the thresholds of that
/// count and the palette will need generated colours. The search stops once
/// the threshold is `MIN_THRESHOLD`, and moves to the next threshold
/// otherwise.
#[verifier::opaque]
pub open spec fn fed(s: DynamicSearch, len: Option<usize>, s2: DynamicSearch, r: SearchStep) -> bool {
    let th = s.expected();
    let v = counts_view(s.counts@);
    match len {
        Some(n) if MIN_COLS <= n <= MAX_COLS => {
            &&& r == SearchStep::Found
            &&& s2.threshold == th
            &&& s2.fallback == s.fallback
            &&& s2.kept == s.kept
            &&& counts_view(s2.counts@) == v
        },
        _ => {
            let v2 = match len {
                Some(n) => record_count(v, n, th),
                None => v,
            };
            let m = max_count(v);
            let replace = len is None && m >= 2 && th < 10 && m < MIN_COLS;
            let th2 = if replace {
                thresholds_of(v, m)[thresholds_of(v, m).len() as int / 2]
            } else {
                th
            };
            &&& s2.threshold == th2
            &&& s2.fallback == (s.fallback || replace)
            &&& s2.kept == (if kept_spec(len) { len } else { s.kept })
            &&& counts_view(s2.counts@) == v2
            &&& r == (if th2 == MIN_THRESHOLD { SearchStep::Stop } else { SearchStep::Continue })
            &&& r == SearchStep::Continue ==> if s.slot == 2 {
                s2.i == s.i + 1 && s2.slot == 0
            } else {
                s2.i == s.i && s2.slot == s.slot + 1
            }
        },
    }
}

/// A result of 6 to 16 colours, and only such a result, ends the search: it
/// is `Found` at the threshold that gave it, with nothing else changed.
pub proof fn usable_count_ends_search(s: DynamicSearch, n: usize, s2: DynamicSearch, r: SearchStep)
    requires
        fed(s, Some(n), s2, r),
    ensures
        (r == SearchStep::Found) <==> (6 <= n && n <= 16),
        6 <= n <= 16 ==> {
            &&& s2.threshold == s.expected()
            &&& s2.fallback == s.fallback
            &&& s2.kept == s.kept
            &&& counts_view(s2.counts@) == counts_view(s.counts@)
        },
{
    reveal(fed);
}

/// Any other count of colours is recorded under that count, its threshold
/// appended to the ones already there; the threshold stays the one that
/// gave it, no generated colours are asked for, and a count of 2 to 5 is
/// kept for the fallback generator.
pub proof fn other_count_is_recorded(s: DynamicSearch, n: usize, s2: DynamicSearch, r: SearchStep)
    requires
        fed(s, Some(n), s2, r),
        !(6 <= n && n <= 16),
    ensures
        counts_view(s2.counts@) == counts_view(s.counts@).insert(
            n,
            if s.counts@.contains_key(n) { s.counts@[n]@.push(s.expected()) } else { seq![s.expected()] },
        ),
        s2.threshold == s.expected(),
        s2.fallback == s.fallback,
        s2.kept == (if 2 <= n && n < 6 { Some(n) } else { s.kept }),
{
    reveal(fed);
}

/// A result without colours at a threshold of 10 or more leaves the search
/// as it was, apart from the threshold, which is the one expected.
pub proof fn no_colours_at_two_digit_threshold(s: DynamicSearch, s2: DynamicSearch, r: SearchStep)
    requires
        fed(s, None, s2, r),
        s.expected() >= 10,
    ensures
        s2.threshold == s.expected(),
        s2.fallback == s.fallback,
        s2.kept == s.kept,
        counts_view(s2.counts@) == counts_view(s.counts@),
{
    reveal(fed);
}

/// A result without colours at a threshold below 10, when the largest count
/// recorded so far `m` is 2 to 5: the threshold becomes the middle one of
/// the thresholds that gave `m` colours, and the palette will be completed
/// with generated colours. Otherwise it leaves the search as it was, apart
/// from the threshold, which is the one expected.
pub proof fn no_colours_at_one_digit_threshold(s: DynamicSearch, m: usize, s2: DynamicSearch, r: SearchStep)
    requires
        s.wf(),
        fed(s, None, s2, r),
        s.expected() < 10,
        s.counts@.contains_key(m),
        forall|k: usize| #[trigger] s.counts@.contains_key(k) ==> k <= m,
    ensures
        counts_view(s2.counts@) == counts_view(s.counts@),
        s2.kept == s.kept,
        2 <= m < 6 ==> {
            &&& s2.fallback
            &&& s2.threshold == s.counts@[m]@[s.counts@[m]@.len() as int / 2]
            &&& s.counts@[m]@.contains(s2.threshold)
        },
        !(2 <= m < 6) ==> s2.threshold == s.expected() && s2.fallback == s.fallback,
{
    reveal(fed);
    let v = counts_view(s.counts@);
    assert(is_max_count(v, m));
    assert(is_max_count(v, max_count(v)));
    let mm = max_count(v);
    assert(mm <= m && m <= mm);
    if 2 <= m < 6 {
        let ths = s.counts@[m]@;
        assert(ths.len() >= 1);
    }
}

/// The search stops exactly when the threshold reaches `MIN_THRESHOLD` (2)
/// without a usable result.
pub proof fn search_stops_at_smallest_threshold(s: DynamicSearch, len: Option<usize>, s2: DynamicSearch, r: SearchStep)
    requires
        fed(s, len, s2, r),
        r != SearchStep::Found,
    ensures
        (r == SearchStep::Stop) <==> s2.threshold == 2,
{
    reveal(fed);
}

/// Whether `s` is the search as `new` makes it.
pub open spec fn search_start(s: DynamicSearch) -> bool {
    &&& s.i == 0
    &&& s.slot == 0
    &&& s.threshold == 20
    &&& !s.fallback
    &&& s.kept is None
    &&& counts_view(s.counts@) == map![0usize => seq![0u8]]
}

/// Whether `states` is a run of the search from its start: `states[k + 1]`
/// and `steps[k]` come from feeding `results[k]` to `states[k]`, and every
/// step but the last is `Continue`.
pub open spec fn search_run(states: Seq<DynamicSearch>, results: Seq<Option<usize>>, steps: Seq<SearchStep>) -> bool {
    &&& states.len() == results.len() + 1
    &&& steps.len() == results.len()
    &&& search_start(states[0])
    &&& forall|k: int| #![trigger steps[k]] 0 <= k < results.len() ==> {
        &&& states[k].wf()
        &&& states[k].can_feed()
        &&& fed(states[k], results[k], states[k + 1], steps[k])
        &&& k + 1 < results.len() ==> steps[k] == SearchStep::Continue
    }
}

/// The dynamic search takes no threshold from the configuration: every search
/// starts from the state that `new` makes, and two runs fed the same results
/// ask for the same thresholds, take the same steps and end with the same
/// threshold and the same need for generated colours.
pub proof fn search_depends_on_results_only(
    a: Seq<DynamicSearch>,
    b: Seq<DynamicSearch>,
    results: Seq<Option<usize>>,
    ra: Seq<SearchStep>,
    rb: Seq<SearchStep>,
)
    requires
        search_run(a, results, ra),
        search_run(b, results, rb),
    ensures
        ra == rb,
        forall|k: int| 0 <= k < results.len() ==> (#[trigger] a[k]).expected() == b[k].expected(),
        a.last().threshold == b.last().threshold,
        a.last().fallback == b.last().fallback,
        a.last().kept == b.last().kept,
{
    assert forall|k: int| 0 <= k < results.len() implies ra[k] == rb[k] && (#[trigger] a[k]).expected() == b[k].expected() by {
        lemma_runs_agree(a, b, results, ra, rb, k);
    }
    lemma_runs_agree(a, b, results, ra, rb, results.len() as int);
    assert(ra =~= rb);
}

/// Whether two searches are in the same state, as far as feeding goes.
pub open spec fn same_search(a: DynamicSearch, b: DynamicSearch) -> bool {
    &&& a.i == b.i
    &&& a.slot == b.slot
    &&& a.threshold == b.threshold
    &&& a.fallback == b.fallback
    &&& a.kept == b.kept
    &&& counts_view(a.counts@) == counts_view(b.counts@)
}

proof fn lemma_runs_agree(
    a: Seq<DynamicSearch>,
    b: Seq<DynamicSearch>,
    results: Seq<Option<usize>>,
    ra: Seq<SearchStep>,
    rb: Seq<SearchStep>,
    k: int,
)
    requires
        search_run(a, results, ra),
        search_run(b, results, rb),
        0 <= k <= results.len(),
    ensures
        a[k].threshold == b[k].threshold,
        a[k].fallback == b[k].fallback,
        a[k].kept == b[k].kept,
        counts_view(a[k].counts@) == counts_view(b[k].counts@),
        k < results.len() ==> same_search(a[k], b[k]) && ra[k] == rb[k],
    decreases k,
{
    if k > 0 {
        lemma_runs_agree(a, b, results, ra, rb, k - 1);
        let j = k - 1;
        assert(ra[j] == ra[j] && rb[j] == rb[j]);
        lemma_fed_determined(a[j], b[j], results[j], a[j + 1], b[j + 1], ra[j], rb[j]);
    }
    if k < results.len() {
        assert(ra[k] == ra[k] && rb[k] == rb[k]);
        lemma_fed_determined(a[k], b[k], results[k], a[k + 1], b[k + 1], ra[k], rb[k]);
    }
}

proof fn lemma_fed_determined(
    a: DynamicSearch,
    b: DynamicSearch,
    len: Option<usize>,
    a2: DynamicSearch,
    b2: DynamicSearch,
    ra: SearchStep,
    rb: SearchStep,
)
    requires
        same_search(a, b),
        fed(a, len, a2, ra),
        fed(b, len, b2, rb),
    ensures
        ra == rb,
        a2.threshold == b2.threshold,
        a2.fallback == b2.fallback,
        a2.kept == b2.kept,
        counts_view(a2.counts@) == counts_view(b2.counts@),
        ra == SearchStep::Continue ==> a2.i == b2.i && a2.slot == b2.slot,
{
    reveal(fed);
}

/// The search for the threshold that gives a palette its colours: the
/// thresholds of `search_order` are tried three at a time, and each result
/// (the number of colours after deduplication, or none) is fed back in order.
#[derive(Debug, Clone)]
pub struct DynamicSearch {
    /// The position of the current triple in `search_order`.
    pub i: usize,
    /// Which result of the triple comes next (0, 1 or 2).
    pub slot: usize,
    /// The threshold of the last result (possibly replaced, see `feed`).
    pub threshold: u8,
    /// Whether the palette must be completed with generated colours.
    pub fallback: bool,
    /// The number of colours of the last result kept for the fallback
    /// generator (see `kept_spec`), if any.
    pub kept: Option<usize>,
    /// The colour counts seen, with their thresholds.
    pub counts: HashMap<usize, Vec<u8>>,
}

/// What to do after a result of the dynamic search.
#[derive(Debug, Clone, Copy, PartialEq, Eq, Structural)]
pub enum SearchStep {
    /// Feed the next result.
    Continue,
    /// This result has a usable number of colours: keep it and stop.
    Found,
    /// The smallest threshold was reached: stop without colours.
    Stop,
}

impl DynamicSearch {
    /// The invariant of the search.
    pub open spec fn wf(&self) -> bool {
        &&& self.slot < 3
        &&& self.i + 2 <= search_order().len()
        &&& self.slot > 0 ==> self.i + 2 < search_order().len()
        &&& self.counts@.contains_key(0)
        &&& forall|k: usize| #[trigger] self.counts@.contains_key(k) ==> self.counts@[k]@.len() >= 1
    }

    /// A search that has not tried anything yet; the count 0 is recorded
    /// (with threshold 0) so that there is always a largest count.
    pub fn new() -> (s: Self)
        ensures
            s.wf(),
            s.i == 0,
            s.slot == 0,
            s.threshold == 20,
            !s.fallback,
            s.kept is None,
            counts_view(s.counts@) == map![0usize => seq![0u8]],
    {
        let mut first: Vec<u8> = Vec::new();
        first.push(0);
        let mut counts: HashMap<usize, Vec<u8>> = HashMap::new();
        counts.insert(0, first);
        let s = DynamicSearch { i: 0, slot: 0, threshold: 20, fallback: false, kept: None, counts };
        assert(counts_view(s.counts@) =~= map![0usize => seq![0u8]]);
        s
    }

    /// The threshold whose result is expected next.
    pub open spec fn expected(&self) -> u8 {
        search_order()[self.i + self.slot]
    }
}

/// The threshold at position `k` of `search_order`.
pub fn search_threshold(k: usize) -> (t: u8)
    requires
        k < search_order().len(),
    ensures
        t == search_order()[k as int],
{
    let order: Vec<u8> = vec![
        14, 16, 13, 17, 12, 18, 11, 19, 10, 20, 9, 21, 8, 22, 7, 23, 6, 24, 5, 25, 4, 26, 3, 27, 2, 28, 29,
        30, 31, 32, 33, 34, 35, 36, 37, 38, 39, 40, 41, 42, 43, 44,
    ];
    assert(order@ =~= search_order());
    order[k]
}

fn largest_count(counts: &HashMap<usize, Vec<u8>>) -> (m: usize)
    requires
        counts@.contains_key(0),
    ensures
        is_max_count(counts_view(counts@), m),
        m == max_count(counts_view(counts@)),
{
    broadcast use vstd::std_specs::hash::group_hash_axioms;
    let ghost keys = counts.keys().remaining().unref();
    let mut m: usize = 0;
    for k in it: counts.keys()
        invariant
            counts@.contains_key(m),
            it.seq() == counts.keys().remaining(),
            forall|j: int| 0 <= j < it.index() ==> *#[trigger] it.seq()[j] <= m,
    {
        proof {
            assert(it.seq().unref().to_set().contains(*k)) by {
                assert(it.seq().unref()[it.index() as int] == *k);
            }
        }
        if *k > m {
            m = *k;
        }
    }
    let ghost v = counts_view(counts@);
    assert forall|j: usize| #[trigger] v.contains_key(j) implies j <= m by {
        assert(counts.keys().remaining().unref().to_set().contains(j));
        let idx = choose|idx: int| 0 <= idx < keys.len() && keys[idx] == j;
        assert(*counts.keys().remaining()[idx] == j);
    }
    assert(is_max_count(v, m));
    assert(is_max_count(v, max_count(v)));
    m
}

impl DynamicSearch {
    /// Whether a triple of thresholds is left to try (`search_order` holds
    /// no threshold past its end).
    pub open spec fn can_feed(&self) -> bool {
        self.i + 2 < search_order().len()
    }

    /// The three thresholds to try next, or `None` when none are left.
    pub fn batch(&self) -> (r: Option<(u8, u8, u8)>)
        requires
            self.wf(),
        ensures
            self.can_feed() ==> r == Some((search_order()[self.i as int], search_order()[self.i + 1],
                search_order()[self.i + 2])),
            !self.can_feed() ==> r is None,
    {
        if self.i + 2 < 42 {
            Some((search_threshold(self.i), search_threshold(self.i + 1), search_threshold(self.i + 2)))
        } else {
            None
        }
    }

    /// The number of colours the search ends with: those of the result it
    /// found (`found`), else those of the last result kept for the fallback
    /// generator, else none.
    pub fn final_count(&self, found: Option<usize>) -> (n: usize)
        ensures
            n == match found {
                Some(f) => f,
                None => match self.kept {
                    Some(k) => k,
                    None => 0,
                },
            },
    {
        match found {
            Some(f) => f,
            None => match self.kept {
                Some(k) => k,
                None => 0,
            },
        }
    }

    /// Feeds the result of the expected threshold: the number of colours left
    /// after deduplication (`None` when the colour space found fewer than
    /// two). A count between `MIN_COLS` and `MAX_COLS` is `Found`. Otherwise
    /// the count is recorded, and a count from 2 to `MIN_COLS - 1` is kept for
    /// the fallback generator (the caller keeps those colours); when there were no colours, a threshold below
    /// 10 and a largest recorded count between 2 and `MIN_COLS` (excluded),
    /// the threshold becomes the median of the thresholds of that count and
    /// the palette will need generated colours. The search stops once the
    /// threshold is `MIN_THRESHOLD`.
    pub fn feed(&mut self, len: Option<usize>) -> (r: SearchStep)
        requires
            old(self).wf(),
            old(self).can_feed(),
        ensures
            final(self).wf(),
            fed(*old(self), len, *final(self), r),
    {
        broadcast use vstd::std_specs::hash::group_hash_axioms;
        proof {
            reveal(fed);
        }
        let ghost v = counts_view(self.counts@);
        let th = search_threshold(self.i + self.slot);
        self.threshold = th;
        match len {
            Some(n) => {
                if MIN_COLS as usize <= n && n <= MAX_COLS as usize {
                    return SearchStep::Found;
                }
                let mut ths: Vec<u8> = match self.counts.get(&n) {
                    Some(old) => {
                        let c = old.clone();
                        assert(c@ =~= old@);
                        c
                    },
                    None => Vec::new(),
                };
                ths.push(th);
                self.counts.insert(n, ths);
                if kept_for_fallback(len) {
                    self.kept = len;
                }
                proof {
                    assert(counts_view(self.counts@) =~= record_count(v, n, th));
                }
            },
            None => {
                let m = largest_count(&self.counts);
                if m >= 2 && th < 10 && m < MIN_COLS as usize {
                    match self.counts.get(&m) {
                        Some(ths) => {
                            self.threshold = ths[ths.len() / 2];
                        },
                        None => {},
                    }
                    self.fallback = true;
                }
            },
        }
        if self.threshold == MIN_THRESHOLD {
            return SearchStep::Stop;
        }
        if self.slot == 2 {
            self.slot = 0;
            self.i = self.i + 1;
        } else {
            self.slot = self.slot + 1;
        }
        SearchStep::Continue
    }
}

} // verus!
