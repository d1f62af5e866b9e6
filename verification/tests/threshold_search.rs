use wallust::colorspaces::search::{kept_for_fallback, search_threshold};
use wallust::colorspaces::{
    dynamic_completion, once_completion, Completion, DynamicSearch, SearchStep,
};

fn expected(s: &DynamicSearch) -> u8 {
    search_threshold(s.i + s.slot)
}

#[test]
fn search_starts_in_the_middle() {
    let s = DynamicSearch::new();
    assert_eq!((s.i, s.slot, s.threshold, s.fallback), (0, 0, 20, false));
    assert_eq!(s.batch(), Some((14, 16, 13)));
    assert_eq!(search_threshold(41), 44);
}

#[test]
fn usable_count_is_found() {
    let mut s = DynamicSearch::new();
    assert_eq!(s.feed(Some(20)), SearchStep::Continue);
    assert_eq!(s.feed(Some(8)), SearchStep::Found);
    assert_eq!(s.threshold, 16);
}

#[test]
fn windows_overlap() {
    let mut s = DynamicSearch::new();
    for _ in 0..3 {
        assert_eq!(s.feed(Some(30)), SearchStep::Continue);
    }
    assert_eq!((s.i, s.slot), (1, 0));
    assert_eq!(s.batch(), Some((16, 13, 17)));
    // the count 30 was recorded once, with its three thresholds
    assert_eq!(s.counts.len(), 2);
    assert_eq!(s.counts[&30], vec![14, 16, 13]);
    assert_eq!(s.counts[&0], vec![0]);
}

#[test]
fn no_colours_below_ten_takes_the_median_threshold() {
    let mut s = DynamicSearch::new();
    let mut fed: Vec<u8> = vec![];
    loop {
        let th = expected(&s);
        if th < 10 {
            let step = s.feed(None);
            assert_eq!(step, SearchStep::Continue);
            break;
        }
        fed.push(th);
        assert_eq!(s.feed(Some(3)), SearchStep::Continue);
    }
    assert_eq!(fed.len(), 26);
    assert_eq!(s.threshold, fed[13]);
    assert_eq!(s.threshold, 18);
    assert!(s.fallback);
}

#[test]
fn no_colours_with_too_few_recorded_goes_on() {
    let mut s = DynamicSearch::new();
    assert_eq!(s.feed(None), SearchStep::Continue);
    assert_eq!(s.threshold, 14);
    assert!(!s.fallback);
}

#[test]
fn search_stops_at_the_smallest_threshold() {
    let mut s = DynamicSearch::new();
    let mut steps = 0;
    loop {
        let step = s.feed(Some(1));
        steps += 1;
        if step == SearchStep::Stop {
            break;
        }
        assert!(s.batch().is_some());
    }
    assert_eq!(s.threshold, 2);
    assert_eq!(steps, 3 * 22 + 3);
}

#[test]
fn dynamic_completion_cases() {
    assert_eq!(dynamic_completion(0, false, 20), Completion::NotEnough);
    assert_eq!(dynamic_completion(1, true, 20), Completion::NotEnough);
    assert_eq!(dynamic_completion(2, false, 20), Completion::Monochromatic);
    assert_eq!(dynamic_completion(4, false, 9), Completion::Fallback(9));
    assert_eq!(dynamic_completion(8, true, 18), Completion::Fallback(18));
    assert_eq!(dynamic_completion(8, false, 18), Completion::Keep);
}

#[test]
fn once_completion_cases() {
    assert_eq!(once_completion(None, 20), Completion::NotEnough);
    assert_eq!(once_completion(Some(2), 20), Completion::Monochromatic);
    assert_eq!(once_completion(Some(1), 20), Completion::Fallback(20));
    assert_eq!(once_completion(Some(5), 20), Completion::Fallback(20));
    assert_eq!(once_completion(Some(6), 20), Completion::Keep);
    assert_eq!(once_completion(Some(16), 20), Completion::Keep);
}

#[test]
fn two_searches_fed_alike_agree() {
    let results = [Some(30), None, Some(4), None, Some(4), None, None, Some(9)];
    let mut a = DynamicSearch::new();
    let mut b = DynamicSearch::new();
    for r in results {
        let asked = (expected(&a), expected(&b));
        assert_eq!(asked.0, asked.1);
        let (sa, sb) = (a.feed(r), b.feed(r));
        assert_eq!(sa, sb);
        assert_eq!((a.threshold, a.fallback), (b.threshold, b.fallback));
        if sa != SearchStep::Continue {
            break;
        }
    }
    assert_eq!(a.threshold, 17);
}

#[test]
fn few_colours_are_kept_for_the_fallback() {
    assert!(!kept_for_fallback(None));
    assert!(!kept_for_fallback(Some(1)));
    assert!(kept_for_fallback(Some(2)));
    assert!(kept_for_fallback(Some(5)));
    assert!(!kept_for_fallback(Some(6)));
    assert!(!kept_for_fallback(Some(30)));
    let mut s = DynamicSearch::new();
    assert_eq!(s.kept, None);
    assert_eq!(s.final_count(None), 0);
    s.feed(Some(30));
    assert_eq!(s.kept, None);
    s.feed(Some(3));
    assert_eq!(s.kept, Some(3));
    s.feed(None);
    assert_eq!(s.kept, Some(3));
    s.feed(Some(4));
    assert_eq!(s.kept, Some(4));
    assert_eq!(s.final_count(None), 4);
    assert_eq!(s.final_count(Some(9)), 9);
    assert_eq!(dynamic_completion(s.final_count(None), s.fallback, s.threshold), Completion::Fallback(s.threshold));
}
