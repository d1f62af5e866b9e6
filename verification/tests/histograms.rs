use wallust::colorspaces::salient::{background_slot, most_counted};
use wallust::colorspaces::histo::{
    clip_cols, color_generator, combinations2, dedup_cols, each_once, fallback,
    fallback_monochromatic, gather_cols, init, keep_most_used, process_deduped, sort_by_count,
    sort_by_keys, sort_dedup_cols,
    Histo,
};

fn h(color: u32, count: usize) -> Histo<u32> {
    Histo::new(color, count)
}

fn pairs(v: &[Histo<u32>]) -> Vec<(u32, usize)> {
    v.iter().map(|x| (x.color, x.count)).collect()
}

fn near(a: &u32, b: &u32) -> bool {
    a.abs_diff(*b) <= 2
}

fn average(a: u32, b: u32) -> u32 {
    (a + b) / 2
}

#[test]
fn new_and_new_no_count() {
    assert_eq!(pairs(&[Histo::new(7u32, 3)]), vec![(7, 3)]);
    assert_eq!(pairs(&[Histo::new_no_count(7u32)]), vec![(7, usize::MAX)]);
}

#[test]
fn sort_puts_most_used_first_and_is_stable() {
    let v = vec![h(1, 2), h(2, 5), h(3, 2), h(4, 9), h(5, 5), h(6, 1)];
    let r = sort_by_count(v);
    assert_eq!(pairs(&r), vec![(4, 9), (2, 5), (5, 5), (1, 2), (3, 2), (6, 1)]);
}

#[test]
fn sort_keeps_an_ordered_histogram() {
    let v = vec![h(1, 9), h(2, 4), h(3, 4), h(4, 1)];
    let r = sort_by_count(v.clone());
    assert_eq!(pairs(&r), pairs(&v));
    assert!(sort_by_count(Vec::<Histo<u32>>::new()).is_empty());
}

#[test]
fn process_deduped_sorts_by_count() {
    let r = process_deduped(vec![h(1, 1), h(2, 3), h(3, 2)]);
    assert_eq!(pairs(&r), vec![(2, 3), (3, 2), (1, 1)]);
}

#[test]
fn clip_keeps_sixteen() {
    let v: Vec<Histo<u32>> = (0..20).map(|i| h(i, 1)).collect();
    let r = clip_cols(v);
    assert_eq!(r.len(), 16);
    assert_eq!(r[15].color, 15);
    let short = clip_cols(vec![h(1, 1), h(2, 1)]);
    assert_eq!(pairs(&short), vec![(1, 1), (2, 1)]);
}

#[test]
fn keep_most_used_appends_sorts_and_clips() {
    let histo: Vec<Histo<u32>> = (0..10).map(|i| h(i, 3)).collect();
    let generated: Vec<Histo<u32>> = (100..110).map(|i| h(i, 1)).collect();
    let r = keep_most_used(histo, generated);
    assert_eq!(r.len(), 16);
    assert!(r[..10].iter().all(|x| x.count == 3 && x.color < 10));
    assert_eq!(r[10].color, 100);
    assert_eq!(r[15].color, 105);
}

#[test]
fn fallback_monochromatic_counts_generated_once() {
    let histo = vec![h(10, 4), h(200, 7)];
    let r = fallback_monochromatic(histo, &vec![50, 60, 70]);
    assert_eq!(pairs(&r), vec![(200, 7), (10, 4), (50, 1), (60, 1), (70, 1)]);
    assert_eq!(pairs(&each_once(&vec![3u32, 4])), vec![(3, 1), (4, 1)]);
}

#[test]
fn gather_counts_alike_colours_in_first_entry() {
    // 13 is not near 10 (the entry keeps its first colour), so it opens an entry.
    let colors = vec![10u32, 11, 50, 12, 51, 90, 13];
    let r = gather_cols(&colors, false, &near, &average);
    assert_eq!(pairs(&r), vec![(10, 3), (50, 2), (90, 1), (13, 1)]);
    let total: usize = r.iter().map(|x| x.count).sum();
    assert_eq!(total, colors.len());
}

#[test]
fn gather_mixes_when_asked() {
    let colors = vec![10u32, 12, 50];
    let r = gather_cols(&colors, true, &near, &average);
    assert_eq!(pairs(&r), vec![(11, 2), (50, 1)]);
    assert!(gather_cols(&Vec::<u32>::new(), true, &near, &average).is_empty());
}

#[test]
fn init_wants_two_colours() {
    assert!(init(&vec![10u32, 11, 12], false, &near, &average).is_none());
    let r = init(&vec![10u32, 11, 40], false, &near, &average).unwrap();
    assert_eq!(pairs(&r), vec![(10, 2), (40, 1)]);
}

#[test]
fn dedup_merges_each_run_into_its_first_entry() {
    let v = vec![h(10, 1), h(11, 1), h(12, 2), h(30, 5), h(40, 1), h(41, 1)];
    let r = dedup_cols(v, &near);
    assert_eq!(pairs(&r), vec![(10, 4), (30, 5), (40, 2)]);
    let total: usize = r.iter().map(|x| x.count).sum();
    assert_eq!(total, 11);
    assert!(dedup_cols(Vec::<Histo<u32>>::new(), &near).is_empty());
}

#[test]
fn dedup_compares_with_the_first_of_the_run() {
    // 12 is near 11 but not near 9, the run's first colour.
    let v = vec![h(9, 1), h(11, 2), h(12, 3)];
    let r = dedup_cols(v, &near);
    assert_eq!(pairs(&r), vec![(9, 3), (12, 3)]);
}

#[test]
fn combinations_in_order() {
    assert_eq!(combinations2(4), vec![(0, 1), (0, 2), (0, 3), (1, 2), (1, 3), (2, 3)]);
    assert!(combinations2(1).is_empty());
    assert!(combinations2(0).is_empty());
}

#[test]
fn color_generator_stops_at_six_colours() {
    let histo = vec![h(0, 5), h(100, 3), h(200, 1)];
    let between = |a: u32, b: u32| vec![(a + b) / 2, (a + b) / 2 + 10, (a + b) / 2 + 20];
    let r = color_generator(&histo, &between, &near, &average);
    // the first pair gives three distinct colours: enough.
    assert_eq!(pairs(&r), vec![(50, 1), (60, 1), (70, 1)]);
}

#[test]
fn color_generator_tries_every_pair_when_short() {
    let histo = vec![h(0, 5), h(100, 3), h(200, 1)];
    let same_mid = |a: u32, b: u32| vec![(a + b) / 2, (a + b) / 2];
    let r = color_generator(&histo, &same_mid, &near, &average);
    assert_eq!(pairs(&r), vec![(50, 2), (100, 2), (150, 2)]);
}

#[test]
fn fallback_completes_and_orders() {
    let histo = vec![h(0, 5), h(100, 3), h(200, 1)];
    let between = |a: u32, b: u32| vec![(a + b) / 2, (a + b) / 2 + 10, (a + b) / 2 + 20];
    let r = fallback(histo, &between, &near, &average);
    assert_eq!(pairs(&r), vec![(0, 5), (100, 3), (200, 1), (50, 1), (60, 1), (70, 1)]);
}

#[test]
fn most_counted_is_the_last_of_the_largest() {
    assert_eq!(most_counted(&vec![h(1, 3), h(2, 7), h(3, 7), h(4, 2)]), 2);
    assert_eq!(most_counted(&vec![h(1, 3)]), 0);
}

#[test]
fn background_goes_back_before_the_clip() {
    assert_eq!(background_slot(3), 3);
    assert_eq!(background_slot(15), 15);
    assert_eq!(background_slot(40), 15);
}

#[test]
fn salient_process_deduped_moves_the_most_used() {
    let by_colour = |mut v: Vec<Histo<u32>>, _bg: Histo<u32>| {
        v.sort_by_key(|x| x.color);
        v
    };
    let r = wallust::colorspaces::salient::process_deduped(vec![h(30, 1), h(10, 9), h(20, 2)], &by_colour);
    assert_eq!(pairs(&r), vec![(20, 2), (30, 1), (10, 9)]);
    let many: Vec<Histo<u32>> = (0..20).map(|i| h(100 - i, if i == 5 { 50 } else { 1 })).collect();
    let r = wallust::colorspaces::salient::process_deduped(many, &by_colour);
    assert_eq!(r.len(), 20);
    assert_eq!(pairs(&r[15..16]), vec![(95, 50)]);
}

#[test]
fn salient_clip_drops_what_is_close_to_the_background() {
    let measure = |_rest: &Vec<Histo<u32>>, bg: Histo<u32>| bg.color + 5;
    let keep = |x: &Histo<u32>, limit: &u32| x.color > *limit;
    // the last entry is the background
    let r = wallust::colorspaces::salient::clip_cols(vec![h(30, 1), h(12, 1), h(40, 1), h(10, 1)], &measure, &keep);
    assert_eq!(pairs(&r), vec![(30, 1), (40, 1), (10, 1)]);
    // with more than sixteen, the background is at position fifteen
    let mut v: Vec<Histo<u32>> = (0..20).map(|i| h(100 + i, 1)).collect();
    v[15] = h(1, 9);
    let r = wallust::colorspaces::salient::clip_cols(v, &measure, &keep);
    assert_eq!(r.len(), 16);
    assert_eq!(pairs(&r[15..16]), vec![(1, 9)]);
    assert_eq!(r[14].color, 114);
}

#[test]
fn salient_sort_puts_the_background_first() {
    let by_colour = |mut v: Vec<Histo<u32>>, _bg: Histo<u32>| {
        v.sort_by_key(|x| x.color);
        v
    };
    let r = wallust::colorspaces::salient::sort_col(vec![h(30, 1), h(10, 1), h(20, 1), h(5, 3)], &by_colour);
    assert_eq!(pairs(&r), vec![(5, 3), (10, 1), (20, 1), (30, 1)]);
}

#[test]
fn sort_by_keys_is_stable() {
    let h = vec![Histo::new(1u8, 1), Histo::new(2, 2), Histo::new(3, 3), Histo::new(4, 4), Histo::new(5, 5)];
    let keys = vec![(2, 0, 0), (1, 5, 0), (2, 0, 0), (1, 5, -1), (0, 9, 9)];
    let r = sort_by_keys(h, &keys);
    let colors: Vec<u8> = r.iter().map(|x| x.color).collect();
    assert_eq!(colors, vec![5, 4, 2, 1, 3]);
}

#[test]
fn sort_dedup_cols_sorts_then_merges() {
    let h = vec![Histo::new(30u8, 1), Histo::new(10, 2), Histo::new(31, 4), Histo::new(11, 8)];
    let keys = vec![(3, 0, 0), (1, 0, 0), (3, 0, 0), (1, 0, 0)];
    let same = |a: &u8, b: &u8| a.abs_diff(*b) <= 2;
    let r = sort_dedup_cols(h, &keys, &same);
    let got: Vec<(u8, usize)> = r.iter().map(|x| (x.color, x.count)).collect();
    assert_eq!(got, vec![(10, 10), (30, 5)]);
}
