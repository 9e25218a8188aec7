use rand::rngs::StdRng;
use rand::SeedableRng;
use tetris::piece::Piece;
use tetris::random::{RandomGenerator, Randomizer, BAG_SIZE};

const KINDS: [Piece; 7] = [Piece::I, Piece::J, Piece::L, Piece::O, Piece::S, Piece::T, Piece::Z];

fn deal(seed: u64, count: usize) -> Vec<Piece> {
    let mut g = RandomGenerator::new(StdRng::seed_from_u64(seed));
    (0..count).map(|_| g.get_next_piece()).collect()
}

#[test]
fn a_bag_holds_seven() {
    assert_eq!(BAG_SIZE, 7);
}

#[test]
fn every_bag_holds_each_kind_once() {
    for seed in 0..20 {
        let dealt = deal(seed, 7 * 50);
        for bag in dealt.chunks(7) {
            for kind in KINDS {
                assert_eq!(bag.iter().filter(|p| **p == kind).count(), 1);
            }
        }
    }
}

#[test]
fn no_kind_comes_twice_within_a_bag() {
    let dealt = deal(99, 7 * 30 + 4);
    for bag in dealt.chunks(7) {
        for (i, p) in bag.iter().enumerate() {
            assert!(!bag[..i].contains(p));
        }
    }
}

#[test]
fn frequencies_are_even_over_ten_thousand_draws() {
    let dealt = deal(2024, 10_000);
    for kind in KINDS {
        let n = dealt.iter().filter(|p| **p == kind).count();
        // 1428 whole bags and four pieces of the next.
        assert!(n == 1428 || n == 1429, "{:?} came {} times", kind, n);
    }
}

#[test]
fn same_seed_deals_the_same_pieces() {
    assert_eq!(deal(5, 200), deal(5, 200));
}

#[test]
fn bags_are_shuffled() {
    let dealt = deal(1, 7 * 20);
    assert!(dealt.chunks(7).any(|bag| bag != KINDS));
    let first: Vec<&[Piece]> = dealt.chunks(7).collect();
    assert!(first.iter().any(|bag| *bag != first[0]));
}

#[test]
fn different_seeds_deal_different_pieces() {
    let a = deal(1, 70);
    assert!((2..10).any(|seed| deal(seed, 70) != a));
}
