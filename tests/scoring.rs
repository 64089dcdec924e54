use probe_score::candidates::SeqIterator;
use probe_score::library::{Library, LibraryBuilder};
use probe_score::probe::{collect_probes, ValIterator};
use probe_score::score::matched_weights;

fn table(draws: &[(u8, f32)]) -> Library {
    let bits: Vec<(u8, u32)> = draws.iter().map(|&(k, w)| (k, w.to_bits())).collect();
    Library::from_draws(&bits)
}

fn score(candidate: &Vec<u8>, library: &Library, window: usize) -> f32 {
    matched_weights(candidate, library, window)
        .into_iter()
        .fold(0.0f32, |acc, w| acc + f32::from_bits(w))
}

#[test]
fn first_write_wins_keeps_earlier_weight() {
    let lib = table(&[(5, 1.0), (5, 2.0)]);
    assert_eq!(lib.get(5).map(f32::from_bits), Some(1.0));
    assert_eq!(lib.len(), 1);
}

#[test]
fn builder_reports_whether_stored() {
    let mut b = LibraryBuilder::new(4);
    assert!(b.offer(7, 10));
    assert!(!b.offer(7, 20));
    assert!(b.offer(8, 30));
    let lib = b.finish();
    assert_eq!(lib.get(7), Some(10));
    assert_eq!(lib.get(8), Some(30));
    assert_eq!(lib.get(9), None);
    assert!(lib.contains_key(8));
    assert!(!lib.contains_key(9));
}

#[test]
fn library_size_stays_within_key_domain() {
    let draws: Vec<(u8, u32)> = (0..2000u32).map(|i| ((i * 7 % 256) as u8, i)).collect();
    let lib = Library::from_draws(&draws);
    assert_eq!(lib.len(), 256);
    let one = Library::from_draws(&vec![(0, 1)]);
    assert_eq!(one.len(), 1);
    let empty = Library::from_draws(&Vec::new());
    assert_eq!(empty.len(), 0);
}

#[test]
fn probe_count_then_exhausted() {
    let v: Vec<u8> = vec![1, 2, 3, 4];
    let mut it = ValIterator::new(&v, 8);
    let mut count = 0usize;
    while it.next().is_some() {
        count += 1;
    }
    assert_eq!(count, 4 * 9);
    for _ in 0..5 {
        assert_eq!(it.next(), None);
    }
}

#[test]
fn probe_of_empty_candidate_is_empty() {
    let v: Vec<u8> = Vec::new();
    let mut it = ValIterator::new(&v, 8);
    assert_eq!(it.next(), None);
    assert_eq!(it.next(), None);
    assert!(collect_probes(&v, 8).is_empty());
}

#[test]
fn probe_wraps_at_256() {
    let v: Vec<u8> = vec![250];
    assert_eq!(collect_probes(&v, 8), vec![250, 251, 252, 253, 254, 255, 0, 1, 2]);
}

#[test]
fn probe_order_walks_each_element_in_turn() {
    let v: Vec<u8> = vec![10, 255];
    assert_eq!(collect_probes(&v, 2), vec![10, 11, 12, 255, 0, 1]);
    assert_eq!(collect_probes(&v, 0), vec![10, 255]);
}

#[test]
fn probe_window_beyond_a_byte_wraps() {
    let v: Vec<u8> = vec![0];
    let p = collect_probes(&v, 300);
    assert_eq!(p.len(), 301);
    assert_eq!(p[255], 255);
    assert_eq!(p[256], 0);
    assert_eq!(p[300], 44);
}

#[test]
fn scorer_literal_case() {
    let lib = table(&[(3, 1.5), (4, 2.5)]);
    let v: Vec<u8> = vec![3];
    assert_eq!(
        matched_weights(&v, &lib, 1),
        vec![1.5f32.to_bits(), 2.5f32.to_bits()]
    );
    assert_eq!(score(&v, &lib, 1), 4.0);
}

#[test]
fn scorer_counts_repeated_probes() {
    let lib = table(&[(4, 0.5)]);
    let v: Vec<u8> = vec![3, 4];
    assert_eq!(score(&v, &lib, 1), 1.0);
    let none: Vec<u8> = vec![100];
    assert_eq!(score(&none, &lib, 8), 0.0);
}

#[test]
fn scoring_twice_is_bit_identical() {
    let lib = table(&[(1, 0.1), (2, 0.2), (3, 0.3), (200, 0.7)]);
    let v: Vec<u8> = vec![0, 1, 199, 250];
    let a = score(&v, &lib, 8);
    let b = score(&v, &lib, 8);
    assert_eq!(a.to_bits(), b.to_bits());
}

#[test]
fn scores_do_not_depend_on_candidate_order() {
    let lib = table(&[(1, 0.25), (9, 1.5), (17, 3.0)]);
    let cands: Vec<Vec<u8>> = vec![vec![0, 8], vec![16], vec![1, 1, 1], vec![]];
    let mut forward: Vec<u32> = cands.iter().map(|c| score(c, &lib, 8).to_bits()).collect();
    let mut backward: Vec<u32> = cands.iter().rev().map(|c| score(c, &lib, 8).to_bits()).collect();
    forward.sort();
    backward.sort();
    assert_eq!(forward, backward);
}

#[test]
fn generator_yields_count_items_of_length() {
    let mut g = SeqIterator::new(7, 3);
    for _ in 0..3 {
        let c = g.next().expect("a candidate");
        assert_eq!(c.len(), 7);
    }
    for _ in 0..4 {
        assert!(g.next().is_none());
    }
}

#[test]
fn generator_with_zero_count_is_exhausted() {
    let mut g = SeqIterator::new(5, 0);
    assert!(g.next().is_none());
    let mut empty = SeqIterator::new(0, 2);
    assert_eq!(empty.next(), Some(Vec::new()));
    assert_eq!(empty.next(), Some(Vec::new()));
    assert_eq!(empty.next(), None);
}
