use tetris::piece::{CurrentPiece, Piece, Rotation};
use tetris::playfield::{find_full_rows, landing_place, remove_row, set_piece, take_next};

const EMPTY: u16 = 0xFC00;
const BLACK: (u8, u8, u8) = (0, 0, 0);
const PURPLE: (u8, u8, u8) = (255, 0, 255);
const CYAN: (u8, u8, u8) = (0, 255, 255);

#[test]
fn set_piece_sets_and_paints_its_cells() {
    let mut mask = [EMPTY; 40];
    let mut colors = [[BLACK; 10]; 40];
    set_piece(&mut mask, &mut colors, &CurrentPiece::new(Piece::T, 3, 5, Rotation::Rotate0));
    for r in 0..40 {
        let (row, painted): (u16, &[usize]) = match r {
            5 => (EMPTY | 0b111000, &[3, 4, 5]),
            6 => (EMPTY | 0b010000, &[4]),
            _ => (EMPTY, &[]),
        };
        assert_eq!(mask[r], row, "row {}", r);
        for c in 0..10 {
            assert_eq!(colors[r][c], if painted.contains(&c) { PURPLE } else { BLACK });
        }
    }
}

#[test]
fn set_piece_keeps_what_is_there() {
    let mut mask = [EMPTY; 40];
    let mut colors = [[BLACK; 10]; 40];
    set_piece(&mut mask, &mut colors, &CurrentPiece::new(Piece::T, 3, 5, Rotation::Rotate0));
    set_piece(&mut mask, &mut colors, &CurrentPiece::new(Piece::I, 4, 3, Rotation::Rotate90));
    // The upright I covers column 4 in rows 3 to 6 and paints over the T
    // where they meet.
    assert_eq!(mask[3], EMPTY | 0b010000);
    assert_eq!(mask[4], EMPTY | 0b010000);
    assert_eq!(mask[5], EMPTY | 0b111000);
    assert_eq!(mask[6], EMPTY | 0b010000);
    assert_eq!(colors[5], [BLACK, BLACK, BLACK, PURPLE, CYAN, PURPLE, BLACK, BLACK, BLACK, BLACK]);
    assert_eq!(colors[6][4], CYAN);
    assert_eq!(colors[3][4], CYAN);
    assert_eq!(colors[7], [BLACK; 10]);
}

#[test]
fn set_piece_reaches_the_top_row_of_its_range() {
    let mut mask = [EMPTY; 40];
    let mut colors = [[BLACK; 10]; 40];
    set_piece(&mut mask, &mut colors, &CurrentPiece::new(Piece::I, 0, 35, Rotation::Rotate90));
    for r in 35..39 {
        assert_eq!(mask[r], EMPTY | 1);
        assert_eq!(colors[r][0], CYAN);
    }
    assert_eq!(mask[39], EMPTY);
    assert_eq!(mask[34], EMPTY);
}

#[test]
fn remove_row_moves_the_rows_above_down() {
    let mut mask = [EMPTY; 40];
    let mut colors = [[BLACK; 10]; 40];
    for r in 0..40 {
        mask[r] = EMPTY | (r as u16 + 1);
        colors[r][0] = (r as u8 + 1, 0, 0);
    }
    remove_row(&mut mask, &mut colors, 7);
    for r in 0..7 {
        assert_eq!(mask[r], EMPTY | (r as u16 + 1));
        assert_eq!(colors[r][0], (r as u8 + 1, 0, 0));
    }
    for r in 7..39 {
        assert_eq!(mask[r], EMPTY | (r as u16 + 2));
        assert_eq!(colors[r][0], (r as u8 + 2, 0, 0));
    }
    assert_eq!(mask[39], EMPTY);
    assert_eq!(colors[39], [BLACK; 10]);
}

#[test]
fn remove_row_at_either_end() {
    let mut mask = [EMPTY; 40];
    let mut colors = [[BLACK; 10]; 40];
    mask[0] = 0xFFFF;
    mask[1] = EMPTY | 1;
    mask[39] = EMPTY | 2;
    colors[39][1] = CYAN;
    remove_row(&mut mask, &mut colors, 0);
    assert_eq!(mask[0], EMPTY | 1);
    assert_eq!(mask[38], EMPTY | 2);
    assert_eq!(colors[38][1], CYAN);
    assert_eq!(mask[39], EMPTY);
    remove_row(&mut mask, &mut colors, 39);
    assert_eq!(mask[38], EMPTY | 2);
    assert_eq!(mask[39], EMPTY);
    remove_row(&mut mask, &mut colors, 38);
    assert_eq!(mask[38], EMPTY);
    assert_eq!(colors[38], [BLACK; 10]);
    assert_eq!(mask[0], EMPTY | 1);
}

#[test]
fn find_full_rows_finds_none_on_an_empty_field() {
    assert_eq!(find_full_rows(&[EMPTY; 40]).1, 0);
    let mut mask = [EMPTY; 40];
    mask[3] = 0xFFFE;
    mask[4] = 0xFDFF;
    assert_eq!(find_full_rows(&mask).1, 0);
}

#[test]
fn find_full_rows_lists_them_from_the_lowest() {
    let mut mask = [EMPTY; 40];
    mask[2] = 0xFFFF;
    mask[9] = 0xFFFF;
    mask[10] = 0xFFFF;
    let (rows, count) = find_full_rows(&mask);
    assert_eq!(count, 3);
    assert_eq!(&rows[..3], &[2, 9, 10]);
}

#[test]
fn find_full_rows_stops_at_four() {
    let mut mask = [EMPTY; 40];
    for r in [1, 3, 4, 7, 9, 30, 39] {
        mask[r] = 0xFFFF;
    }
    assert_eq!(find_full_rows(&mask), ([1, 3, 4, 7], 4));
    assert_eq!(find_full_rows(&[0xFFFF; 40]), ([0, 1, 2, 3], 4));
    let mut mask = [EMPTY; 40];
    mask[39] = 0xFFFF;
    let (rows, count) = find_full_rows(&mask);
    assert_eq!((rows[0], count), (39, 1));
}

#[test]
fn take_next_moves_the_queue_up() {
    let mut queue = [Piece::I, Piece::J, Piece::L, Piece::O, Piece::S, Piece::T];
    assert_eq!(take_next(&mut queue, Piece::Z), Piece::I);
    assert_eq!(queue, [Piece::J, Piece::L, Piece::O, Piece::S, Piece::T, Piece::Z]);
    assert_eq!(take_next(&mut queue, Piece::J), Piece::J);
    assert_eq!(queue, [Piece::L, Piece::O, Piece::S, Piece::T, Piece::Z, Piece::J]);
}

#[test]
fn landing_place_is_the_floor_of_an_empty_field() {
    let field = [EMPTY; 40];
    for x in 0..=6 {
        let p = CurrentPiece::new(Piece::I, x, 20, Rotation::Rotate0);
        assert_eq!(landing_place(&p, &field), CurrentPiece::new(Piece::I, x, 0, Rotation::Rotate0));
    }
    let p = CurrentPiece::new(Piece::T, 3, 0, Rotation::Rotate270);
    assert_eq!(landing_place(&p, &field), p);
}

#[test]
fn landing_place_is_the_lowest_row_reached_straight_down() {
    let mut field = [EMPTY; 40];
    field[4] |= 1 << 5;
    field[9] |= 1 << 3;
    // A flat T at column offset 3 covers columns 3 to 5 in its lowest row
    // and column 4 in the row above.
    let p = CurrentPiece::new(Piece::T, 3, 20, Rotation::Rotate0);
    let landed = landing_place(&p, &field);
    assert_eq!(landed, CurrentPiece::new(Piece::T, 3, 10, Rotation::Rotate0));
    for y in 10..=20 {
        assert!(!CurrentPiece::new(Piece::T, 3, y, Rotation::Rotate0).collides(&field));
    }
    assert!(CurrentPiece::new(Piece::T, 3, 9, Rotation::Rotate0).collides(&field));
    // Free rows further down are not reached.
    assert!(!CurrentPiece::new(Piece::T, 3, 6, Rotation::Rotate0).collides(&field));
    // From below the first cell the piece falls to the second.
    let p = CurrentPiece::new(Piece::T, 3, 7, Rotation::Rotate0);
    assert_eq!(landing_place(&p, &field), CurrentPiece::new(Piece::T, 3, 5, Rotation::Rotate0));
    // One column to the left only the cell in row 9 is in the way.
    let p = CurrentPiece::new(Piece::T, 1, 20, Rotation::Rotate0);
    assert_eq!(landing_place(&p, &field), CurrentPiece::new(Piece::T, 1, 10, Rotation::Rotate0));
    let p = CurrentPiece::new(Piece::T, 0, 20, Rotation::Rotate0);
    assert_eq!(landing_place(&p, &field), CurrentPiece::new(Piece::T, 0, 0, Rotation::Rotate0));
}

#[test]
fn landing_place_of_a_piece_that_does_not_fit_is_its_own() {
    let mut field = [EMPTY; 40];
    field[12] |= 1 << 4;
    let p = CurrentPiece::new(Piece::O, 4, 12, Rotation::Rotate0);
    assert!(p.collides(&field));
    assert!(!CurrentPiece::new(Piece::O, 4, 10, Rotation::Rotate0).collides(&field));
    assert_eq!(landing_place(&p, &field), p);
    let high = CurrentPiece::new(Piece::O, 4, 38, Rotation::Rotate0);
    assert_eq!(landing_place(&high, &field), high);
}
