use tetris::piece::{CurrentPiece, Piece, PlayfieldMask, Rotation};
use tetris::random::Randomizer;
use tetris::rotate::{Rotate, SuperRotationSystem};
use tetris::Game;

const BLACK: (u8, u8, u8) = (0, 0, 0);
const CYAN: (u8, u8, u8) = (0, 255, 255);
const BLUE: (u8, u8, u8) = (0, 0, 255);
const YELLOW: (u8, u8, u8) = (255, 255, 0);
const PURPLE: (u8, u8, u8) = (255, 0, 255);

/// Deals a fixed list of pieces, over and over.
#[derive(Clone)]
struct Fixed {
    pieces: Vec<Piece>,
    at: usize,
}

impl Randomizer for Fixed {
    fn get_next_piece(&mut self) -> Piece {
        let p = self.pieces[self.at % self.pieces.len()];
        self.at += 1;
        p
    }
}

/// Refuses every turn.
#[derive(Clone)]
struct Never;

impl Rotate for Never {
    fn rotate_left(&self, _: &CurrentPiece, _: &PlayfieldMask) -> Option<CurrentPiece> {
        None
    }

    fn rotate_right(&self, _: &CurrentPiece, _: &PlayfieldMask) -> Option<CurrentPiece> {
        None
    }
}

/// Lifts the piece by two rows on a turn to the left, if it fits there.
struct Lift;

impl Rotate for Lift {
    fn rotate_left(&self, piece: &CurrentPiece, field: &PlayfieldMask) -> Option<CurrentPiece> {
        let up = CurrentPiece::new(piece.piece, piece.x(), piece.y() + 2, piece.rotation);
        if up.collides(field) {
            None
        } else {
            Some(up)
        }
    }

    fn rotate_right(&self, _: &CurrentPiece, _: &PlayfieldMask) -> Option<CurrentPiece> {
        None
    }
}

type Srs = Game<Fixed, SuperRotationSystem>;

fn game(pieces: &[Piece]) -> Srs {
    Game::new(Fixed { pieces: pieces.to_vec(), at: 0 }, SuperRotationSystem {})
}

/// Turns the falling piece clockwise `turns` times, moves it to column
/// offset `x` and drops it.
fn place(g: &mut Srs, turns: u32, x: u32) {
    for _ in 0..turns {
        g.rotate_right();
    }
    while g.current_piece().x() > x {
        g.move_left();
    }
    while g.current_piece().x() < x {
        g.move_right();
    }
    assert_eq!(g.current_piece().x(), x);
    g.hard_drop();
}

fn cells(g: &Srs) -> Vec<(usize, usize, (u8, u8, u8))> {
    let mut found = Vec::new();
    for r in 0..40 {
        for c in 0..10 {
            if g.board()[r][c] != BLACK {
                found.push((r, c, g.board()[r][c]));
            }
        }
    }
    found
}

#[test]
fn new_game_starts_on_an_empty_field() {
    let g = game(&[Piece::T, Piece::I, Piece::J, Piece::L, Piece::O, Piece::S, Piece::Z, Piece::T]);
    assert!(g.running());
    assert_eq!(*g.current_piece(), Piece::T.spawn());
    assert_eq!(
        g.next_pieces(),
        [Piece::I, Piece::J, Piece::L, Piece::O, Piece::S, Piece::Z]
    );
    assert_eq!(g.held_piece(), None);
    assert!(cells(&g).is_empty());
    assert_eq!(g.board().len(), 40);
    assert_eq!(g.board()[0].len(), 10);
}

#[test]
fn ghost_is_on_the_floor_of_an_empty_field() {
    for kind in [Piece::I, Piece::J, Piece::L, Piece::S, Piece::T, Piece::Z] {
        let g = game(&[kind]);
        assert_eq!(g.current_piece().x(), 3);
        assert_eq!(*g.ghost_piece(), CurrentPiece::new(kind, 3, 0, Rotation::Rotate0));
    }
    let g = game(&[Piece::O]);
    assert_eq!(*g.ghost_piece(), CurrentPiece::new(Piece::O, 4, 0, Rotation::Rotate0));
}

#[test]
fn ghost_rests_on_the_stack() {
    let mut g = game(&[Piece::O]);
    g.hard_drop();
    assert_eq!(*g.ghost_piece(), CurrentPiece::new(Piece::O, 4, 2, Rotation::Rotate0));
    g.move_left();
    assert_eq!(*g.ghost_piece(), CurrentPiece::new(Piece::O, 3, 2, Rotation::Rotate0));
    g.move_left();
    assert_eq!(*g.ghost_piece(), CurrentPiece::new(Piece::O, 2, 0, Rotation::Rotate0));
    assert_eq!(*g.current_piece(), CurrentPiece::new(Piece::O, 2, 20, Rotation::Rotate0));
}

#[test]
fn hard_drop_locks_the_piece_where_its_ghost_is() {
    let mut g = game(&[Piece::J, Piece::S, Piece::Z, Piece::T, Piece::L, Piece::O, Piece::I, Piece::T]);
    assert_eq!(*g.current_piece(), CurrentPiece::new(Piece::J, 3, 20, Rotation::Rotate0));
    g.hard_drop();
    assert_eq!(
        cells(&g),
        vec![(0, 3, BLUE), (0, 4, BLUE), (0, 5, BLUE), (1, 3, BLUE)]
    );
    assert!(g.running());
    assert_eq!(*g.current_piece(), Piece::S.spawn());
    assert_eq!(
        g.next_pieces(),
        [Piece::Z, Piece::T, Piece::L, Piece::O, Piece::I, Piece::T]
    );
    assert_eq!(g.held_piece(), None);
}

#[test]
fn hard_drop_takes_the_piece_from_where_it_is() {
    let mut g = game(&[Piece::I, Piece::O]);
    g.rotate_right();
    assert_eq!(*g.current_piece(), CurrentPiece::new(Piece::I, 5, 18, Rotation::Rotate90));
    for _ in 0..9 {
        g.move_right();
    }
    assert_eq!(g.current_piece().x(), 9);
    g.hard_drop();
    assert_eq!(
        cells(&g),
        vec![(0, 9, CYAN), (1, 9, CYAN), (2, 9, CYAN), (3, 9, CYAN)]
    );
}

#[test]
fn moves_stop_at_the_walls() {
    let mut g = game(&[Piece::I]);
    for x in (0..3).rev() {
        g.move_left();
        assert_eq!(g.current_piece().x(), x);
    }
    g.move_left();
    assert_eq!(g.current_piece().x(), 0);
    for x in 1..=6 {
        g.move_right();
        assert_eq!(g.current_piece().x(), x);
    }
    g.move_right();
    assert_eq!(g.current_piece().x(), 6);
    assert_eq!(g.current_piece().y(), 20);
    assert_eq!(*g.ghost_piece(), CurrentPiece::new(Piece::I, 6, 0, Rotation::Rotate0));
}

#[test]
fn moves_stop_at_the_stack() {
    let mut g = game(&[Piece::I]);
    // An upright I in each of columns 2 and 7, four times over: two walls
    // of 16 rows.
    for _ in 0..4 {
        place(&mut g, 1, 2);
        place(&mut g, 1, 7);
    }
    // In the open the flat I moves either way.
    g.move_left();
    assert_eq!(g.current_piece().x(), 2);
    g.move_right();
    assert_eq!(g.current_piece().x(), 3);
    // It falls between the walls; in row 10 they hold it.
    g.set_drop(true);
    for _ in 0..30 {
        g.update();
    }
    assert_eq!(*g.current_piece(), CurrentPiece::new(Piece::I, 3, 10, Rotation::Rotate0));
    g.move_left();
    assert_eq!(g.current_piece().x(), 3);
    g.move_right();
    assert_eq!(g.current_piece().x(), 3);
}

#[test]
fn turn_follows_the_rotation_system() {
    let mut g = game(&[Piece::T]);
    g.rotate_right();
    assert_eq!(*g.current_piece(), CurrentPiece::new(Piece::T, 4, 19, Rotation::Rotate90));
    assert_eq!(*g.ghost_piece(), CurrentPiece::new(Piece::T, 4, 0, Rotation::Rotate90));
    g.rotate_left();
    assert_eq!(*g.current_piece(), CurrentPiece::new(Piece::T, 3, 20, Rotation::Rotate0));
    g.rotate_left();
    assert_eq!(*g.current_piece(), CurrentPiece::new(Piece::T, 3, 19, Rotation::Rotate270));
}

#[test]
fn refused_turn_changes_nothing() {
    let mut g = Game::new(Fixed { pieces: vec![Piece::T, Piece::L], at: 0 }, Never);
    g.rotate_left();
    g.rotate_right();
    assert_eq!(*g.current_piece(), Piece::T.spawn());
    assert_eq!(*g.ghost_piece(), CurrentPiece::new(Piece::T, 3, 0, Rotation::Rotate0));
    g.hard_drop();
    assert_eq!(*g.current_piece(), Piece::L.spawn());
}

#[test]
fn piece_falls_a_row_in_sixty_ticks() {
    let mut g = game(&[Piece::L]);
    for _ in 0..59 {
        g.update();
        assert_eq!(g.current_piece().y(), 20);
    }
    g.update();
    assert_eq!(g.current_piece().y(), 19);
    for _ in 0..59 {
        g.update();
        assert_eq!(g.current_piece().y(), 19);
    }
    g.update();
    assert_eq!(g.current_piece().y(), 18);
    assert_eq!(g.current_piece().x(), 3);
    assert_eq!(g.ghost_piece().y(), 0);
}

#[test]
fn soft_drop_falls_twenty_times_as_fast() {
    let mut g = game(&[Piece::L]);
    g.set_drop(true);
    for tick in 1..=60u32 {
        g.update();
        assert_eq!(g.current_piece().y(), 20 - tick / 3);
    }
    assert_eq!(g.current_piece().y(), 0);
}

#[test]
fn soft_drop_ends_when_the_key_goes_up() {
    let mut g = game(&[Piece::L]);
    g.set_drop(true);
    for _ in 0..6 {
        g.update();
    }
    assert_eq!(g.current_piece().y(), 18);
    g.set_drop(false);
    // 59 ticks at a sixtieth of a row each are not yet a row.
    for _ in 0..59 {
        g.update();
    }
    assert_eq!(g.current_piece().y(), 18);
    g.update();
    assert_eq!(g.current_piece().y(), 17);
}

#[test]
fn held_direction_moves_once_then_repeats_after_the_delay() {
    let mut g = game(&[Piece::J]);
    g.set_left(true);
    assert_eq!(g.current_piece().x(), 2);
    // Reporting the key down again is no new press.
    g.set_left(true);
    assert_eq!(g.current_piece().x(), 2);
    // 18 ticks of delay, then half a column per tick.
    for _ in 0..19 {
        g.update();
        assert_eq!(g.current_piece().x(), 2);
    }
    g.update();
    assert_eq!(g.current_piece().x(), 1);
    g.update();
    assert_eq!(g.current_piece().x(), 1);
    g.update();
    assert_eq!(g.current_piece().x(), 0);
    for _ in 0..10 {
        g.update();
        assert_eq!(g.current_piece().x(), 0);
    }
    assert_eq!(g.ghost_piece().x(), 0);
}

#[test]
fn released_direction_stops_repeating() {
    let mut g = game(&[Piece::J]);
    g.set_right(true);
    assert_eq!(g.current_piece().x(), 4);
    for _ in 0..20 {
        g.update();
    }
    assert_eq!(g.current_piece().x(), 5);
    g.set_right(false);
    for _ in 0..30 {
        g.update();
    }
    assert_eq!(g.current_piece().x(), 5);
    // A new press starts the delay anew.
    g.set_right(true);
    assert_eq!(g.current_piece().x(), 6);
    for _ in 0..19 {
        g.update();
        assert_eq!(g.current_piece().x(), 6);
    }
    g.update();
    assert_eq!(g.current_piece().x(), 7);
}

#[test]
fn last_pressed_direction_wins_and_hands_back() {
    let mut g = game(&[Piece::O]);
    g.set_left(true);
    assert_eq!(g.current_piece().x(), 3);
    g.set_right(true);
    assert_eq!(g.current_piece().x(), 4);
    for _ in 0..20 {
        g.update();
    }
    // Right repeats although left is still down.
    assert_eq!(g.current_piece().x(), 5);
    g.set_right(false);
    // Left is the held direction again, with a fresh delay and no move at once.
    assert_eq!(g.current_piece().x(), 5);
    for _ in 0..19 {
        g.update();
        assert_eq!(g.current_piece().x(), 5);
    }
    g.update();
    assert_eq!(g.current_piece().x(), 4);
    g.set_left(false);
    for _ in 0..30 {
        g.update();
    }
    assert_eq!(g.current_piece().x(), 4);
}

#[test]
fn piece_on_the_ground_locks_after_the_delay() {
    let mut g = game(&[Piece::O, Piece::T]);
    g.set_drop(true);
    for _ in 0..60 {
        g.update();
    }
    assert_eq!(*g.current_piece(), CurrentPiece::new(Piece::O, 4, 0, Rotation::Rotate0));
    // The tick that grounds the piece is the first of the 60 that count.
    for _ in 0..58 {
        g.update();
        assert!(cells(&g).is_empty());
        assert_eq!(g.current_piece().piece, Piece::O);
    }
    g.update();
    assert_eq!(
        cells(&g),
        vec![(0, 4, YELLOW), (0, 5, YELLOW), (1, 4, YELLOW), (1, 5, YELLOW)]
    );
    assert_eq!(*g.current_piece(), Piece::T.spawn());
}

#[test]
fn moves_restart_the_lock_delay_only_as_often_as_the_budget_allows() {
    let mut g = game(&[Piece::O, Piece::T]);
    g.set_drop(true);
    for _ in 0..60 {
        g.update();
    }
    assert_eq!(g.current_piece().y(), 0);
    // One successful move before every tick. The first 25 moves start the
    // delay anew; from the 26th on the count runs on and reaches 60 in the
    // 84th tick.
    for round in 1..=83 {
        if round % 2 == 1 {
            g.move_left();
            assert_eq!(g.current_piece().x(), 3);
        } else {
            g.move_right();
            assert_eq!(g.current_piece().x(), 4);
        }
        g.update();
        assert!(cells(&g).is_empty(), "locked in round {}", round);
        assert_eq!(g.current_piece().piece, Piece::O);
    }
    g.move_right();
    assert_eq!(g.current_piece().x(), 4);
    g.update();
    assert_eq!(
        cells(&g),
        vec![(0, 4, YELLOW), (0, 5, YELLOW), (1, 4, YELLOW), (1, 5, YELLOW)]
    );
    assert_eq!(g.current_piece().piece, Piece::T);
}

#[test]
fn turns_use_up_the_same_budget() {
    let mut g = game(&[Piece::O, Piece::T]);
    g.set_drop(true);
    for _ in 0..60 {
        g.update();
    }
    // An O turns in place, and every turn of it succeeds.
    for round in 1..=83 {
        g.rotate_right();
        g.update();
        assert!(cells(&g).is_empty(), "locked in round {}", round);
    }
    g.rotate_right();
    g.update();
    assert_eq!(cells(&g).len(), 4);
    assert_eq!(g.current_piece().piece, Piece::T);
}

#[test]
fn hold_takes_the_next_piece_the_first_time() {
    let mut g = game(&[Piece::T, Piece::I, Piece::J, Piece::L, Piece::O, Piece::S, Piece::Z, Piece::T]);
    g.move_left();
    g.hold();
    assert_eq!(g.held_piece(), Some(Piece::T));
    assert_eq!(*g.current_piece(), Piece::I.spawn());
    assert_eq!(*g.ghost_piece(), CurrentPiece::new(Piece::I, 3, 0, Rotation::Rotate0));
    assert_eq!(
        g.next_pieces(),
        [Piece::J, Piece::L, Piece::O, Piece::S, Piece::Z, Piece::T]
    );
    assert!(cells(&g).is_empty());
}

#[test]
fn second_hold_without_a_lock_does_nothing() {
    let mut g = game(&[Piece::T, Piece::I, Piece::J, Piece::L, Piece::O, Piece::S, Piece::Z, Piece::T]);
    g.hold();
    g.move_right();
    let piece = *g.current_piece();
    let shadow = *g.ghost_piece();
    let next = g.next_pieces();
    g.hold();
    assert_eq!(g.held_piece(), Some(Piece::T));
    assert_eq!(*g.current_piece(), piece);
    assert_eq!(*g.ghost_piece(), shadow);
    assert_eq!(g.next_pieces(), next);
    g.hold();
    assert_eq!(g.held_piece(), Some(Piece::T));
    assert_eq!(*g.current_piece(), piece);
}

#[test]
fn hold_swaps_with_the_held_piece_after_a_lock() {
    let mut g = game(&[Piece::T, Piece::I, Piece::J, Piece::L, Piece::O, Piece::S, Piece::Z, Piece::T]);
    g.hold();
    assert_eq!(g.current_piece().piece, Piece::I);
    g.hard_drop();
    assert_eq!(g.current_piece().piece, Piece::J);
    let next = g.next_pieces();
    g.rotate_right();
    g.hold();
    // The held T comes back at the spawn place; the queue is not touched.
    assert_eq!(g.held_piece(), Some(Piece::J));
    assert_eq!(*g.current_piece(), Piece::T.spawn());
    assert_eq!(g.next_pieces(), next);
    g.hold();
    assert_eq!(g.held_piece(), Some(Piece::J));
    assert_eq!(g.current_piece().piece, Piece::T);
}

#[test]
fn hold_starts_the_fall_of_the_new_piece_anew() {
    let mut g = game(&[Piece::T, Piece::I]);
    for _ in 0..59 {
        g.update();
    }
    g.hold();
    for _ in 0..59 {
        g.update();
        assert_eq!(g.current_piece().y(), 20);
    }
    g.update();
    assert_eq!(g.current_piece().y(), 19);
}

#[test]
fn full_rows_are_removed_and_the_rows_above_move_down() {
    let mut g = game(&[
        Piece::I,
        Piece::I,
        Piece::I,
        Piece::I,
        Piece::J,
        Piece::I,
        Piece::O,
        Piece::T,
        Piece::I,
        Piece::S,
        Piece::Z,
        Piece::L,
    ]);
    place(&mut g, 1, 8); // upright I in column 8, rows 0 to 3
    place(&mut g, 0, 0); // flat I in row 0, columns 0 to 3
    place(&mut g, 0, 4); // flat I in row 0, columns 4 to 7
    place(&mut g, 0, 1); // flat I in row 1, columns 1 to 4
    place(&mut g, 0, 5); // J: row 1, columns 5 to 7, and row 2, column 5
    place(&mut g, 0, 0); // flat I in row 2, columns 0 to 3
    place(&mut g, 0, 6); // O: rows 2 and 3, columns 6 and 7
    place(&mut g, 2, 3); // T upside down: row 2, column 4, and row 3, columns 3 to 5
    assert_eq!(g.board()[0], [CYAN, CYAN, CYAN, CYAN, CYAN, CYAN, CYAN, CYAN, CYAN, BLACK]);
    assert_eq!(g.board()[1], [BLACK, CYAN, CYAN, CYAN, CYAN, BLUE, BLUE, BLUE, CYAN, BLACK]);
    assert_eq!(g.board()[2], [CYAN, CYAN, CYAN, CYAN, PURPLE, BLUE, YELLOW, YELLOW, CYAN, BLACK]);
    assert_eq!(
        g.board()[3],
        [BLACK, BLACK, BLACK, PURPLE, PURPLE, PURPLE, YELLOW, YELLOW, CYAN, BLACK]
    );
    // The lock that completes rows 0 and 2 and leaves rows 1 and 3 open.
    place(&mut g, 1, 9);
    assert_eq!(g.board()[0], [CYAN; 10]);
    assert_eq!(g.board()[2][9], CYAN);
    assert_eq!(g.current_piece().piece, Piece::S);
    // The tick after the lock notes the rows, the next one removes them.
    g.update();
    assert_eq!(g.board()[0], [CYAN; 10]);
    g.update();
    assert_eq!(g.board()[0], [BLACK, CYAN, CYAN, CYAN, CYAN, BLUE, BLUE, BLUE, CYAN, CYAN]);
    assert_eq!(
        g.board()[1],
        [BLACK, BLACK, BLACK, PURPLE, PURPLE, PURPLE, YELLOW, YELLOW, CYAN, CYAN]
    );
    for r in 2..40 {
        assert_eq!(g.board()[r], [BLACK; 10], "row {}", r);
    }
    assert!(g.running());
    // The field that collisions are tested against has moved as well.
    assert_eq!(*g.current_piece(), Piece::S.spawn());
    g.move_left();
    g.move_left();
    g.move_left();
    assert_eq!(*g.ghost_piece(), CurrentPiece::new(Piece::S, 0, 1, Rotation::Rotate0));
    g.rotate_right();
    for _ in 0..9 {
        g.move_right();
    }
    assert_eq!(g.current_piece().x(), 8);
    assert_eq!(g.ghost_piece().y(), 2);
}

#[test]
fn four_rows_are_removed_at_once() {
    let mut g = game(&[Piece::I]);
    for _ in 0..4 {
        place(&mut g, 0, 0);
        place(&mut g, 0, 4);
    }
    place(&mut g, 1, 8);
    place(&mut g, 1, 9);
    for r in 0..4 {
        assert_eq!(g.board()[r], [CYAN; 10]);
    }
    g.update();
    g.update();
    assert!(cells(&g).is_empty());
    // Nothing is pending any more: the piece falls again.
    let y = g.current_piece().y();
    g.set_drop(true);
    for _ in 0..3 {
        g.update();
    }
    assert_eq!(g.current_piece().y(), y - 1);
}

#[test]
fn ghost_follows_the_rows_that_are_removed() {
    let mut g = game(&[Piece::I, Piece::I, Piece::O, Piece::L, Piece::T]);
    place(&mut g, 0, 0);
    place(&mut g, 0, 4);
    place(&mut g, 0, 8);
    // Row 0 is full; the O has left two cells in row 1. The fresh L lands on
    // row 0.
    assert_eq!(*g.current_piece(), Piece::L.spawn());
    assert_eq!(*g.ghost_piece(), CurrentPiece::new(Piece::L, 3, 1, Rotation::Rotate0));
    g.update(); // notes row 0
    assert_eq!(*g.ghost_piece(), CurrentPiece::new(Piece::L, 3, 1, Rotation::Rotate0));
    g.update(); // removes it
    assert_eq!(*g.current_piece(), Piece::L.spawn());
    assert_eq!(*g.ghost_piece(), CurrentPiece::new(Piece::L, 3, 0, Rotation::Rotate0));
    // A hard drop right after the tick rests on the floor.
    g.hard_drop();
    let orange = (255, 127, 0);
    assert_eq!(
        g.board()[0],
        [BLACK, BLACK, BLACK, orange, orange, orange, BLACK, BLACK, YELLOW, YELLOW]
    );
    assert_eq!(
        g.board()[1],
        [BLACK, BLACK, BLACK, BLACK, BLACK, orange, BLACK, BLACK, BLACK, BLACK]
    );
    assert_eq!(cells(&g).len(), 6);
    assert_eq!(*g.current_piece(), Piece::T.spawn());
}

#[test]
fn ghost_follows_four_rows_that_are_removed() {
    let mut g = game(&[Piece::I]);
    for _ in 0..4 {
        place(&mut g, 0, 0);
        place(&mut g, 0, 4);
    }
    place(&mut g, 1, 8);
    place(&mut g, 1, 9);
    assert_eq!(*g.ghost_piece(), CurrentPiece::new(Piece::I, 3, 4, Rotation::Rotate0));
    g.update();
    g.update();
    assert_eq!(*g.ghost_piece(), CurrentPiece::new(Piece::I, 3, 0, Rotation::Rotate0));
    g.hard_drop();
    assert_eq!(
        cells(&g),
        vec![(0, 3, CYAN), (0, 4, CYAN), (0, 5, CYAN), (0, 6, CYAN)]
    );
}

#[test]
fn piece_left_alone_after_a_clear_locks_on_the_ground() {
    let mut g = game(&[Piece::I, Piece::I, Piece::O, Piece::L, Piece::T]);
    place(&mut g, 0, 0);
    place(&mut g, 0, 4);
    place(&mut g, 0, 8);
    g.set_drop(true);
    let mut ticks = 0;
    while g.current_piece().piece == Piece::L {
        g.update();
        ticks += 1;
        assert!(ticks < 200);
        // While it falls the ghost is below it or where it is, never above.
        assert!(g.ghost_piece().y() <= g.current_piece().y());
    }
    let orange = (255, 127, 0);
    assert_eq!(
        g.board()[0],
        [BLACK, BLACK, BLACK, orange, orange, orange, BLACK, BLACK, YELLOW, YELLOW]
    );
    assert_eq!(g.board()[1][5], orange);
    assert_eq!(cells(&g).len(), 6);
}

#[test]
fn more_than_four_full_rows_go_in_two_rounds() {
    let mut g = game(&[Piece::I]);
    // Five rows of two flat I each, and two upright I in each of columns 8
    // and 9, all dropped between two ticks.
    for _ in 0..5 {
        place(&mut g, 0, 0);
        place(&mut g, 0, 4);
    }
    for _ in 0..2 {
        place(&mut g, 1, 8);
        place(&mut g, 1, 9);
    }
    for r in 0..5 {
        assert_eq!(g.board()[r], [CYAN; 10]);
    }
    g.update(); // notes rows 0 to 3
    g.update(); // removes them
    assert_eq!(g.board()[0], [CYAN; 10]);
    for r in 1..4 {
        assert_eq!(
            g.board()[r],
            [BLACK, BLACK, BLACK, BLACK, BLACK, BLACK, BLACK, BLACK, CYAN, CYAN]
        );
    }
    assert_eq!(g.board()[4], [BLACK; 10]);
    g.update(); // notes the row that was left
    g.update(); // removes it
    for r in 0..3 {
        assert_eq!(
            g.board()[r],
            [BLACK, BLACK, BLACK, BLACK, BLACK, BLACK, BLACK, BLACK, CYAN, CYAN]
        );
    }
    assert_eq!(cells(&g).len(), 6);
}

#[test]
fn rows_above_a_removed_row_keep_their_order() {
    let mut g = game(&[Piece::I, Piece::I, Piece::O, Piece::T, Piece::L]);
    place(&mut g, 0, 0); // I: row 0, columns 0 to 3
    place(&mut g, 0, 4); // I: row 0, columns 4 to 7
    place(&mut g, 0, 8); // O: rows 0 and 1, columns 8 and 9
    place(&mut g, 0, 0); // T: row 1, columns 0 to 2, and row 2, column 1
    place(&mut g, 0, 3); // L: row 1, columns 3 to 5, and row 2, column 5
    g.update();
    g.update();
    let orange = (255, 127, 0);
    assert_eq!(
        g.board()[0],
        [PURPLE, PURPLE, PURPLE, orange, orange, orange, BLACK, BLACK, YELLOW, YELLOW]
    );
    assert_eq!(
        g.board()[1],
        [BLACK, PURPLE, BLACK, BLACK, BLACK, orange, BLACK, BLACK, BLACK, BLACK]
    );
    assert_eq!(cells(&g).len(), 10);
}

#[test]
fn tick_that_removes_rows_does_nothing_else() {
    let mut g = game(&[Piece::I, Piece::I, Piece::O, Piece::L]);
    place(&mut g, 0, 0);
    place(&mut g, 0, 4);
    place(&mut g, 0, 8);
    assert_eq!(g.board()[0], [CYAN, CYAN, CYAN, CYAN, CYAN, CYAN, CYAN, CYAN, YELLOW, YELLOW]);
    assert_eq!(*g.current_piece(), Piece::L.spawn());
    g.set_drop(true);
    g.update(); // a third of a row; notes row 0
    assert_eq!(g.board()[0][0], CYAN);
    g.update(); // removes row 0 and nothing else
    assert_eq!(
        g.board()[0],
        [BLACK, BLACK, BLACK, BLACK, BLACK, BLACK, BLACK, BLACK, YELLOW, YELLOW]
    );
    assert_eq!(g.current_piece().y(), 20);
    g.update(); // two thirds
    assert_eq!(g.current_piece().y(), 20);
    g.update(); // a whole row
    assert_eq!(g.current_piece().y(), 19);
}

/// Clears two rows with four flat I and an O, `rounds` times, and returns
/// the number of ticks that a fresh piece then needs to fall one row.
fn ticks_for_a_row_after(rounds: u32) -> u32 {
    let mut g = game(&[Piece::I, Piece::I, Piece::I, Piece::I, Piece::O]);
    for _ in 0..rounds {
        place(&mut g, 0, 0);
        place(&mut g, 0, 4);
        place(&mut g, 0, 0);
        place(&mut g, 0, 4);
        place(&mut g, 0, 8);
        g.update();
        g.update();
        assert!(cells(&g).is_empty());
    }
    // A hold brings a fresh piece, which starts its fall from nothing.
    g.hold();
    let mut ticks = 0;
    while g.current_piece().y() == 20 {
        g.update();
        ticks += 1;
        assert!(ticks <= 60);
    }
    assert_eq!(g.current_piece().y(), 19);
    ticks
}

#[test]
fn ten_lines_raise_the_level_and_the_fall() {
    // At level 1 a piece falls 1 261 034 units a tick: a row in 48 ticks.
    assert_eq!(ticks_for_a_row_after(5), 48);
    assert_eq!(ticks_for_a_row_after(6), 48);
}

#[test]
fn level_rises_after_ten_lines_not_before() {
    assert_eq!(ticks_for_a_row_after(0), 60);
    assert_eq!(ticks_for_a_row_after(1), 60);
    assert_eq!(ticks_for_a_row_after(4), 60);
}

#[test]
fn twenty_lines_raise_the_level_twice() {
    // At level 2 a piece falls 1 618 657 units a tick: a row in 38 ticks.
    assert_eq!(ticks_for_a_row_after(10), 38);
}

#[test]
fn game_ends_when_a_piece_locks_above_the_visible_rows() {
    let mut pieces = vec![Piece::O; 11];
    pieces.extend([Piece::I, Piece::J, Piece::L, Piece::S, Piece::T, Piece::Z]);
    let mut g = game(&pieces);
    // Ten O on top of each other fill rows 0 to 19 of two columns. The
    // tenth ends in row 19, the highest visible row, and the game goes on.
    for _ in 0..10 {
        g.hard_drop();
        assert!(g.running());
    }
    assert_eq!(g.board()[19][4], YELLOW);
    assert_eq!(*g.ghost_piece(), CurrentPiece::new(Piece::O, 4, 20, Rotation::Rotate0));
    let piece = *g.current_piece();
    let next = g.next_pieces();
    assert_eq!(next, [Piece::I, Piece::J, Piece::L, Piece::S, Piece::T, Piece::Z]);
    g.hard_drop();
    // The eleventh is locked in rows 20 and 21.
    assert!(!g.running());
    assert_eq!(g.board()[20][4], YELLOW);
    assert_eq!(g.board()[21][5], YELLOW);
    assert_eq!(cells(&g).len(), 44);
    // No piece follows a lock-out.
    assert_eq!(*g.current_piece(), piece);
    assert_eq!(g.next_pieces(), next);
}

#[test]
fn lock_out_goes_by_the_highest_cell_of_the_piece() {
    let mut pieces = vec![Piece::I, Piece::I, Piece::I, Piece::I, Piece::O, Piece::I];
    pieces.extend([Piece::J, Piece::L, Piece::S, Piece::T, Piece::Z, Piece::O]);
    let mut g = game(&pieces);
    // Four upright I and an O fill column 0 up to row 17.
    for _ in 0..4 {
        place(&mut g, 1, 0);
        assert!(g.running());
    }
    place(&mut g, 0, 0);
    assert!(g.running());
    assert_eq!(g.board()[17][0], YELLOW);
    // The next upright I comes to rest in rows 18 to 21: its box starts in a
    // visible row, its two highest cells are above them.
    g.rotate_right();
    for _ in 0..5 {
        g.move_left();
    }
    assert_eq!(*g.current_piece(), CurrentPiece::new(Piece::I, 0, 18, Rotation::Rotate90));
    assert_eq!(*g.ghost_piece(), CurrentPiece::new(Piece::I, 0, 18, Rotation::Rotate90));
    let next = g.next_pieces();
    g.hard_drop();
    assert!(!g.running());
    for r in 18..22 {
        assert_eq!(g.board()[r][0], CYAN);
    }
    assert_eq!(*g.current_piece(), CurrentPiece::new(Piece::I, 0, 18, Rotation::Rotate90));
    assert_eq!(g.next_pieces(), next);
}

#[test]
fn piece_with_one_row_in_the_first_hidden_row_is_a_lock_out() {
    let mut pieces = vec![Piece::O; 10];
    pieces.extend([Piece::I, Piece::J, Piece::L, Piece::S, Piece::T, Piece::Z, Piece::O]);
    let mut g = game(&pieces);
    for _ in 0..10 {
        g.hard_drop();
    }
    // A flat I rests on the O in row 20, the first row that is not visible.
    assert_eq!(*g.ghost_piece(), CurrentPiece::new(Piece::I, 3, 20, Rotation::Rotate0));
    let next = g.next_pieces();
    g.hard_drop();
    assert!(!g.running());
    assert_eq!(g.board()[20], [BLACK, BLACK, BLACK, CYAN, CYAN, CYAN, CYAN, BLACK, BLACK, BLACK]);
    assert_eq!(g.board()[21], [BLACK; 10]);
    assert_eq!(g.next_pieces(), next);
}

#[test]
fn piece_that_reaches_into_the_first_hidden_row_is_a_lock_out() {
    let mut pieces = vec![Piece::O; 9];
    pieces.extend([Piece::I, Piece::J, Piece::L, Piece::S, Piece::T, Piece::Z, Piece::O]);
    let mut g = game(&pieces);
    for _ in 0..9 {
        g.hard_drop();
    }
    // Rows 0 to 17 are set in columns 4 and 5. A flat I on them lies in row
    // 18, below the highest visible row, and the game goes on.
    assert_eq!(*g.ghost_piece(), CurrentPiece::new(Piece::I, 3, 18, Rotation::Rotate0));
    g.hard_drop();
    assert!(g.running());
    assert_eq!(*g.current_piece(), Piece::J.spawn());
    // A J on the I has its bar in row 19 and one cell in row 20.
    assert_eq!(*g.ghost_piece(), CurrentPiece::new(Piece::J, 3, 19, Rotation::Rotate0));
    let next = g.next_pieces();
    g.hard_drop();
    assert!(!g.running());
    assert_eq!(g.board()[19][5], BLUE);
    assert_eq!(g.board()[20][3], BLUE);
    assert_eq!(g.next_pieces(), next);
}

#[test]
fn lock_delay_ends_the_game_above_the_visible_rows_too() {
    let mut pieces = vec![Piece::O; 11];
    pieces.extend([Piece::I, Piece::J, Piece::L, Piece::S, Piece::T, Piece::Z]);
    let mut g = game(&pieces);
    for _ in 0..10 {
        g.hard_drop();
    }
    let next = g.next_pieces();
    // The piece rests where it appeared; 60 ticks later it is locked.
    for _ in 0..59 {
        g.update();
        assert!(g.running());
        assert_eq!(g.board()[20][4], BLACK);
    }
    g.update();
    assert!(!g.running());
    assert_eq!(g.board()[20][4], YELLOW);
    assert_eq!(g.board()[21][4], YELLOW);
    assert_eq!(*g.current_piece(), Piece::O.spawn());
    assert_eq!(g.next_pieces(), next);
}

#[test]
fn ended_game_ignores_every_request() {
    let mut g = game(&[Piece::O]);
    for _ in 0..11 {
        g.hard_drop();
    }
    assert!(!g.running());
    let piece = *g.current_piece();
    let shadow = *g.ghost_piece();
    let next = g.next_pieces();
    let held = g.held_piece();
    let board = *g.board();
    g.move_left();
    g.move_right();
    g.rotate_left();
    g.rotate_right();
    g.hold();
    g.hard_drop();
    g.set_left(true);
    g.set_right(true);
    g.set_drop(true);
    for _ in 0..200 {
        g.update();
    }
    assert!(!g.running());
    assert_eq!(*g.current_piece(), piece);
    assert_eq!(*g.ghost_piece(), shadow);
    assert_eq!(g.next_pieces(), next);
    assert_eq!(g.held_piece(), held);
    assert_eq!(*g.board(), board);
}

#[test]
fn rotation_system_of_the_game_is_the_one_that_is_asked() {
    let mut g = Game::new(Fixed { pieces: vec![Piece::O, Piece::T], at: 0 }, Lift);
    g.rotate_left();
    assert_eq!(*g.current_piece(), CurrentPiece::new(Piece::O, 4, 22, Rotation::Rotate0));
    assert_eq!(*g.ghost_piece(), CurrentPiece::new(Piece::O, 4, 0, Rotation::Rotate0));
    g.rotate_right();
    assert_eq!(*g.current_piece(), CurrentPiece::new(Piece::O, 4, 22, Rotation::Rotate0));
    g.rotate_left();
    assert_eq!(g.current_piece().y(), 24);
    g.hard_drop();
    assert!(g.running());
    assert_eq!(g.board()[0][4], YELLOW);
    assert_eq!(g.board()[24][4], BLACK);
    assert_eq!(*g.current_piece(), Piece::T.spawn());
}

#[test]
fn lock_clears_the_hold_lock() {
    let mut g = game(&[Piece::T, Piece::I, Piece::J, Piece::L]);
    g.hold();
    g.hold();
    assert_eq!(g.held_piece(), Some(Piece::T));
    g.set_drop(true);
    // Let the piece land and lock by itself.
    let mut ticks = 0;
    while cells(&g).is_empty() {
        g.update();
        ticks += 1;
        assert!(ticks < 200);
    }
    g.hold();
    assert_eq!(g.held_piece(), Some(Piece::J));
    assert_eq!(g.current_piece().piece, Piece::T);
}

#[test]
fn game_can_be_cloned() {
    let mut g = Game::new(Fixed { pieces: vec![Piece::Z, Piece::S], at: 0 }, Never);
    g.move_left();
    let mut h = g.clone();
    h.hard_drop();
    assert_eq!(g.current_piece().piece, Piece::Z);
    assert_eq!(h.current_piece().piece, Piece::S);
    assert_eq!(g.board()[0][3], BLACK);
    assert_eq!(h.board()[0][3], (255, 0, 0));
}

#[test]
fn lock_piece_locks_the_piece_that_it_is_given() {
    let mut g = game(&[Piece::T, Piece::I, Piece::J, Piece::L, Piece::O, Piece::S, Piece::Z, Piece::T]);
    g.hold();
    assert_eq!(g.held_piece(), Some(Piece::T));
    g.lock_piece(&CurrentPiece::new(Piece::O, 0, 0, Rotation::Rotate0));
    assert_eq!(
        cells(&g),
        vec![(0, 0, YELLOW), (0, 1, YELLOW), (1, 0, YELLOW), (1, 1, YELLOW)]
    );
    assert!(g.running());
    // The queue was J, L, O, S, Z, T after the hold.
    assert_eq!(*g.current_piece(), Piece::J.spawn());
    assert_eq!(*g.ghost_piece(), CurrentPiece::new(Piece::J, 3, 0, Rotation::Rotate0));
    assert_eq!(
        g.next_pieces(),
        [Piece::L, Piece::O, Piece::S, Piece::Z, Piece::T, Piece::T]
    );
    // The lock has cleared the hold lock.
    g.hold();
    assert_eq!(g.held_piece(), Some(Piece::J));
    assert_eq!(g.current_piece().piece, Piece::T);
}

#[test]
fn lock_piece_above_the_visible_rows_ends_the_game() {
    let mut g = game(&[Piece::T, Piece::I, Piece::J, Piece::L, Piece::O, Piece::S, Piece::Z]);
    let piece = *g.current_piece();
    let next = g.next_pieces();
    g.lock_piece(&CurrentPiece::new(Piece::I, 9, 17, Rotation::Rotate90));
    assert!(!g.running());
    assert_eq!(
        cells(&g),
        vec![(17, 9, CYAN), (18, 9, CYAN), (19, 9, CYAN), (20, 9, CYAN)]
    );
    assert_eq!(*g.current_piece(), piece);
    assert_eq!(g.next_pieces(), next);
}

#[test]
fn reset_lock_starts_the_delay_anew() {
    let mut g = game(&[Piece::O, Piece::T]);
    g.set_drop(true);
    for _ in 0..100 {
        g.update();
    }
    // On the ground since tick 60: the count of the delay is at 41.
    assert_eq!(g.current_piece().y(), 0);
    g.reset_lock();
    for _ in 0..59 {
        g.update();
        assert!(cells(&g).is_empty());
    }
    g.update();
    assert_eq!(cells(&g).len(), 4);
}

#[test]
fn reset_lock_does_nothing_before_the_delay_runs() {
    let mut g = game(&[Piece::O, Piece::T]);
    g.set_drop(true);
    // In the air the count is at zero: resets are not used up.
    for _ in 0..40 {
        g.reset_lock();
    }
    for _ in 0..60 {
        g.update();
    }
    // 25 resets are still there.
    for round in 1..=83 {
        g.reset_lock();
        g.update();
        assert!(cells(&g).is_empty(), "locked in round {}", round);
    }
    g.reset_lock();
    g.update();
    assert_eq!(cells(&g).len(), 4);
}

#[test]
fn update_ghost_changes_nothing_in_a_game_that_goes_on() {
    let mut g = game(&[Piece::S, Piece::I, Piece::O]);
    g.hard_drop();
    g.move_left();
    g.rotate_right();
    for _ in 0..70 {
        g.update();
    }
    let piece = *g.current_piece();
    let shadow = *g.ghost_piece();
    let board = *g.board();
    g.update_ghost();
    assert_eq!(*g.current_piece(), piece);
    assert_eq!(*g.ghost_piece(), shadow);
    assert_eq!(*g.board(), board);
}

#[test]
fn clear_takes_ten_cells_for_each_row() {
    let mut g = game(&[
        Piece::I,
        Piece::I,
        Piece::I,
        Piece::I,
        Piece::J,
        Piece::I,
        Piece::O,
        Piece::T,
        Piece::I,
        Piece::S,
    ]);
    place(&mut g, 1, 8);
    place(&mut g, 0, 0);
    place(&mut g, 0, 4);
    place(&mut g, 0, 1);
    place(&mut g, 0, 5);
    place(&mut g, 0, 0);
    place(&mut g, 0, 6);
    place(&mut g, 2, 3);
    place(&mut g, 1, 9);
    // Nine pieces: 36 cells, rows 0 and 2 full.
    assert_eq!(cells(&g).len(), 36);
    g.update();
    assert_eq!(cells(&g).len(), 36);
    g.update();
    assert_eq!(cells(&g).len(), 16);
    for r in 38..40 {
        assert_eq!(g.board()[r], [BLACK; 10]);
    }
}
