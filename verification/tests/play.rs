use rand::rngs::StdRng;
use rand::{Rng, SeedableRng};
use tetris::piece::Piece;
use tetris::playfield::landing_place;
use tetris::random::RandomGenerator;
use tetris::rotate::SuperRotationSystem;
use tetris::state::{HeldDirection, Ruleset};
use tetris::Game;

const KINDS: [Piece; 7] = [Piece::I, Piece::J, Piece::L, Piece::O, Piece::S, Piece::T, Piece::Z];

/// The row masks that belong to the colours of the game.
fn mask_of(g: &Game<RandomGenerator, SuperRotationSystem>) -> [u16; 40] {
    let mut mask = [0xFC00u16; 40];
    for r in 0..40 {
        for c in 0..10 {
            if g.board()[r][c] != (0, 0, 0) {
                mask[r] |= 1 << c;
            }
        }
    }
    mask
}

fn seeded(seed: u64) -> Game<RandomGenerator, SuperRotationSystem> {
    Game::new(RandomGenerator::new(StdRng::seed_from_u64(seed)), SuperRotationSystem {})
}

#[test]
fn first_seven_pieces_of_a_game_are_one_bag() {
    for seed in 0..50 {
        let g = seeded(seed);
        let mut first = vec![g.current_piece().piece];
        first.extend(g.next_pieces());
        for kind in KINDS {
            assert_eq!(first.iter().filter(|p| **p == kind).count(), 1);
        }
    }
}

#[test]
fn pieces_of_a_game_come_in_bags() {
    let mut g = seeded(11);
    let mut seen = vec![g.current_piece().piece];
    // Drop pieces side by side so that the game goes on for a while.
    for turn in 0..13 {
        for _ in 0..(turn % 4) * 2 {
            g.move_left();
            g.move_left();
            g.move_right();
        }
        g.hard_drop();
        if !g.running() {
            break;
        }
        seen.push(g.current_piece().piece);
    }
    assert!(seen.len() >= 8);
    for bag in seen.chunks(7) {
        for (i, p) in bag.iter().enumerate() {
            assert!(!bag[..i].contains(p));
        }
    }
}

#[test]
fn same_seed_plays_the_same_game() {
    let mut a = seeded(3);
    let mut b = seeded(3);
    let mut keys = StdRng::seed_from_u64(77);
    for _ in 0..3000 {
        match keys.gen_range(0..12) {
            0 => {
                a.move_left();
                b.move_left();
            }
            1 => {
                a.move_right();
                b.move_right();
            }
            2 => {
                a.rotate_left();
                b.rotate_left();
            }
            3 => {
                a.rotate_right();
                b.rotate_right();
            }
            4 => {
                a.hard_drop();
                b.hard_drop();
            }
            5 => {
                a.hold();
                b.hold();
            }
            _ => {}
        }
        a.update();
        b.update();
        assert_eq!(a.running(), b.running());
        assert_eq!(a.current_piece(), b.current_piece());
        assert_eq!(a.ghost_piece(), b.ghost_piece());
        assert_eq!(a.next_pieces(), b.next_pieces());
        assert_eq!(a.held_piece(), b.held_piece());
        assert_eq!(a.board(), b.board());
    }
}

#[test]
fn long_games_keep_their_shape() {
    let mut keys = StdRng::seed_from_u64(4242);
    let mut games = 0;
    let mut g = seeded(0);
    let mut left = false;
    let mut right = false;
    for tick in 0..60_000 {
        if !g.running() {
            games += 1;
            g = seeded(games);
            left = false;
            right = false;
        }
        match keys.gen_range(0..40) {
            0 => g.move_left(),
            1 => g.move_right(),
            2 | 3 => g.rotate_left(),
            4 | 5 => g.rotate_right(),
            6 => g.hard_drop(),
            7 => g.hold(),
            8 => {
                left = !left;
                g.set_left(left);
            }
            9 => {
                right = !right;
                g.set_right(right);
            }
            10 => g.set_drop(keys.gen_range(0..2) == 0),
            _ => {}
        }
        g.update();

        let piece = *g.current_piece();
        let shadow = *g.ghost_piece();
        if g.running() {
            // The ghost is where the piece lands now.
            assert_eq!(shadow, landing_place(&piece, &mask_of(&g)), "tick {}", tick);
        }
        assert_eq!(shadow.piece, piece.piece, "tick {}", tick);
        assert_eq!(shadow.x(), piece.x());
        assert_eq!(shadow.rotation, piece.rotation);
        assert!(piece.y() < 36);
        assert!(shadow.y() < 36);
        if g.running() {
            assert!(piece.x() <= 9);
        }
        // The rows above the reach of any lock stay empty, and while the
        // game goes on so do all rows above the visible ones.
        for r in 24..40 {
            assert_eq!(g.board()[r], [(0, 0, 0); 10]);
        }
        if g.running() {
            for r in 20..24 {
                assert_eq!(g.board()[r], [(0, 0, 0); 10], "tick {}", tick);
            }
        }
        // Every cell has the colour of a kind.
        for r in 0..24 {
            for c in 0..10 {
                let cell = g.board()[r][c];
                assert!(cell == (0, 0, 0) || KINDS.iter().any(|k| k.color() == cell));
            }
        }
    }
    assert!(games >= 1);
}

#[test]
fn rows_are_never_left_full_for_more_than_a_tick() {
    let mut keys = StdRng::seed_from_u64(9);
    let mut games = 0;
    let mut g = seeded(100);
    for _ in 0..40_000 {
        if !g.running() {
            games += 1;
            g = seeded(100 + games);
        }
        match keys.gen_range(0..16) {
            0 | 1 | 2 => g.move_left(),
            3 | 4 | 5 => g.move_right(),
            6 => g.rotate_right(),
            7 => g.hard_drop(),
            _ => {}
        }
        // One tick notes full rows, the next removes them.
        g.update();
        g.update();
        if g.running() {
            for r in 0..40 {
                assert!(g.board()[r].iter().any(|c| *c == (0, 0, 0)), "row {} is full", r);
            }
        }
    }
}

#[test]
fn no_direction_is_held_by_default() {
    assert_eq!(HeldDirection::default(), HeldDirection::Neither);
    assert_ne!(HeldDirection::Left, HeldDirection::Right);
}

#[test]
fn rules_are_plain_values() {
    let rules = Ruleset {
        das_delay: 18,
        das_gravity: 30_000_000,
        drop_gravity_multiplier: 20,
        lock_delay: 60,
        lock_resets: 25,
        line_clear_constant: 10,
        line_clear_coeff: 0,
    };
    let copy = rules;
    assert_eq!(copy, rules);
    assert_eq!(copy.lock_delay, 60);
}
