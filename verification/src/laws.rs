//! What holds of the steps of the rules: every step keeps a state well
//! formed, and the steps obey the laws that players rely on.

use vstd::prelude::*;
use crate::gravity::{lemma_curve_is_bounded, ROW_UNITS};
use crate::piece::{
    has_cell, lemma_shape_has_four_cells, lemma_shape_height, shape_rows, shifted, CurrentPiece,
    Piece, Rgb, FIELD_COLUMNS, FIELD_ROWS,
};
use crate::state::{
    background, blank_colors, board_ok, cells_in, empty_rows, fall, full_rows_from, gone_below,
    hidden_rows_empty, is_gone, landing, playable_cells,
    landing_row,
    painted, painted_row, pending_ok, piece_row, row_ok, step_down, with_piece, without_row,
    without_rows, GameState, HeldDirection, EMPTY_ROW, FULL_ROW, LOCK_OUT_ROW,
};

verus! {

proof fn lemma_or_keeps_wall(row: u16, mask: u16)
    by (bit_vector)
    requires
        row & EMPTY_ROW == EMPTY_ROW,
    ensures
        (row | mask) & EMPTY_ROW == EMPTY_ROW,
{
}

proof fn lemma_or_cells(row: u16, mask: u16, c: u16)
    by (bit_vector)
    requires
        c < 16,
    ensures
        has_cell(row | mask, c) == (has_cell(row, c) || has_cell(mask, c)),
{
}

proof fn lemma_or_full(mask: u16)
    by (bit_vector)
    ensures
        FULL_ROW | mask == FULL_ROW,
{
}

proof fn lemma_empty_row(c: u16)
    by (bit_vector)
    requires
        c < 10,
    ensures
        !has_cell(EMPTY_ROW, c),
        EMPTY_ROW & EMPTY_ROW == EMPTY_ROW,
{
}

/// The landing place of a piece that fits where it is: the piece itself in
/// a row that is not higher, free for it like every row between, and with
/// no free row directly below. It is the lowest row that the piece can
/// reach by moving straight down.
pub proof fn lemma_landing_is_lowest(piece: CurrentPiece, rows: Seq<u16>)
    requires
        !piece.collides_with(rows),
    ensures
        landing(piece, rows) == piece.at_row(landing(piece, rows).y),
        landing(piece, rows).y <= piece.y,
        forall|y: u32|
            landing(piece, rows).y <= y <= piece.y ==> !(#[trigger] piece.at_row(y)).collides_with(
                rows,
            ),
        landing(piece, rows).y == 0 || piece.at_row(
            (landing(piece, rows).y - 1) as u32,
        ).collides_with(rows),
{
    assert(piece.at_row(piece.y) == piece);
    lemma_landing_row_from(piece, rows, piece.y);
}

proof fn lemma_landing_row_from(piece: CurrentPiece, rows: Seq<u16>, from: u32)
    requires
        !piece.at_row(from).collides_with(rows),
    ensures
        landing_row(piece, rows, from) <= from,
        forall|y: u32|
            landing_row(piece, rows, from) <= y <= from ==> !(#[trigger] piece.at_row(
                y,
            )).collides_with(rows),
        landing_row(piece, rows, from) == 0 || piece.at_row(
            (landing_row(piece, rows, from) - 1) as u32,
        ).collides_with(rows),
    decreases from,
{
    if from > 0 && !piece.at_row((from - 1) as u32).collides_with(rows) {
        lemma_landing_row_from(piece, rows, (from - 1) as u32);
    }
}

/// The landing place is the piece itself in a row that is not higher,
/// whether or not the piece fits where it is.
pub proof fn lemma_landing_is_below(piece: CurrentPiece, rows: Seq<u16>)
    ensures
        landing(piece, rows) == piece.at_row(landing(piece, rows).y),
        landing(piece, rows).y <= piece.y,
{
    if !piece.collides_with(rows) {
        lemma_landing_is_lowest(piece, rows);
    }
}

proof fn lemma_shape_clear_of_wall(shape: u16, x: u32)
    by (bit_vector)
    requires
        shape <= 15,
        x <= 6,
    ensures
        shifted(shape, x) & EMPTY_ROW == 0,
{
}

/// On a field that holds nothing, a piece fits wherever its box is inside
/// the field: up to column offset 6 and below the top four rows.
pub proof fn lemma_fits_empty_field(piece: CurrentPiece)
    requires
        piece.x <= 6,
        piece.y < FIELD_ROWS - 4,
    ensures
        !piece.collides_with(empty_rows()),
{
    lemma_shape_has_four_cells(piece.piece, piece.rotation);
    let shape = shape_rows(piece.piece, piece.rotation);
    lemma_shape_clear_of_wall(shape[0], piece.x);
    lemma_shape_clear_of_wall(shape[1], piece.x);
    lemma_shape_clear_of_wall(shape[2], piece.x);
    lemma_shape_clear_of_wall(shape[3], piece.x);
}

/// On a field that holds nothing, such a piece lands in row 0.
pub proof fn lemma_lands_on_the_floor(piece: CurrentPiece)
    requires
        piece.x <= 6,
        piece.y < FIELD_ROWS - 4,
    ensures
        landing(piece, empty_rows()) == piece.at_row(0),
{
    lemma_fits_empty_field(piece);
    lemma_landing_is_lowest(piece, empty_rows());
    let low = landing(piece, empty_rows()).y;
    if low > 0 {
        lemma_fits_empty_field(piece.at_row((low - 1) as u32));
    }
}

/// A piece that tries to move down stays itself and does not rise.
pub proof fn lemma_fall_is_below(piece: CurrentPiece, rows: Seq<u16>, steps: nat)
    ensures
        fall(piece, rows, steps) == piece.at_row(fall(piece, rows, steps).y),
        fall(piece, rows, steps).y <= piece.y,
        piece.y - fall(piece, rows, steps).y <= steps,
    decreases steps,
{
    if steps > 0 {
        lemma_fall_is_below(step_down(piece, rows), rows, (steps - 1) as nat);
    }
}

/// A move or turn to a place where the piece fits keeps the state well
/// formed.
pub proof fn lemma_moved_to_keeps_wf(s: GameState, placed: CurrentPiece)
    requires
        s.wf(),
        s.running,
        !placed.collides_with(s.rows),
    ensures
        s.moved_to(placed).wf(),
{
    lemma_landing_is_below(placed, s.rows);
}

/// A shift to either side keeps the state well formed.
pub proof fn lemma_shift_keeps_wf(s: GameState)
    requires
        s.wf(),
        s.running,
    ensures
        s.shift_left().wf(),
        s.shift_right().wf(),
        s.shift_held().wf(),
        s.shift_left().running,
        s.shift_right().running,
        s.shift_held().running,
{
    let left = s.current.at_column((s.current.x - 1) as u32);
    if s.current.x > 0 && !left.collides_with(s.rows) {
        lemma_moved_to_keeps_wf(s, left);
    }
    let right = s.current.at_column((s.current.x + 1) as u32);
    if s.current.x < FIELD_COLUMNS && !right.collides_with(s.rows) {
        lemma_moved_to_keeps_wf(s, right);
    }
}

/// Any number of shifts in the held direction keeps the state well formed.
pub proof fn lemma_shift_held_by_keeps_wf(s: GameState, steps: nat)
    requires
        s.wf(),
        s.running,
    ensures
        s.shift_held_by(steps).wf(),
        s.shift_held_by(steps).running,
    decreases steps,
{
    if steps > 0 {
        lemma_shift_keeps_wf(s);
        lemma_shift_held_by_keeps_wf(s.shift_held(), (steps - 1) as nat);
    }
}

/// A fresh piece makes a state well formed that is well formed but for its
/// ghost.
proof fn lemma_new_piece_on_any_ghost(s: GameState, piece: Piece)
    requires
        s.with_ghost().wf(),
    ensures
        s.with_new_piece(piece).wf(),
{
    lemma_landing_is_below(piece.spawned(), s.rows);
}

/// A fresh piece keeps the state well formed.
pub proof fn lemma_new_piece_keeps_wf(s: GameState, piece: Piece)
    requires
        s.wf(),
    ensures
        s.with_new_piece(piece).wf(),
{
    lemma_landing_is_below(s.current, s.rows);
    lemma_new_piece_on_any_ghost(s, piece);
}

proof fn lemma_nothing_moved_is_nothing(row: u16, x: u32)
    by (bit_vector)
    ensures
        shifted(0u16, x) == 0,
        row | 0u16 == row,
{
}

/// A piece adds nothing to the rows above its highest cell.
proof fn lemma_piece_ends_at_its_top_row(rows: Seq<u16>, piece: CurrentPiece, r: int)
    requires
        piece.top_row() < r < rows.len(),
    ensures
        with_piece(rows, piece)[r] == rows[r],
{
    lemma_shape_height(piece.piece, piece.rotation);
    lemma_nothing_moved_is_nothing(rows[r], piece.x);
    if piece.y <= r < piece.y + 4 {
        assert(shape_rows(piece.piece, piece.rotation)[r - piece.y] == 0);
    }
}

/// A row and its colours still agree when cells are set in the row and
/// painted in a colour that is not the background.
proof fn lemma_painted_row_ok(row: u16, colors: Seq<Rgb>, mask: u16, rgb: Rgb)
    requires
        row_ok(row, colors),
        rgb != background(),
    ensures
        row_ok(row | mask, painted_row(colors, mask, rgb)),
{
    lemma_or_keeps_wall(row, mask);
    let after = painted_row(colors, mask, rgb);
    assert forall|c: int| 0 <= c < FIELD_COLUMNS implies (has_cell(row | mask, c as u16)
        <==> #[trigger] after[c] != background()) by {
        lemma_or_cells(row, mask, c as u16);
        assert(has_cell(row, c as u16) <==> colors[c] != background());
    }
}

/// A field with the cells of a piece set and painted is a field, and rows
/// that were full are full.
proof fn lemma_piece_joins_board(rows: Seq<u16>, colors: Seq<Seq<Rgb>>, piece: CurrentPiece)
    requires
        board_ok(rows, colors),
    ensures
        board_ok(with_piece(rows, piece), painted(colors, piece)),
        forall|r: int|
            0 <= r < FIELD_ROWS && rows[r] == FULL_ROW ==> #[trigger] with_piece(rows, piece)[r]
                == FULL_ROW,
{
    let rows2 = with_piece(rows, piece);
    let colors2 = painted(colors, piece);
    assert forall|r: int| 0 <= r < FIELD_ROWS implies row_ok(
        #[trigger] rows2[r],
        colors2[r],
    ) by {
        assert(row_ok(rows[r], colors[r]));
        lemma_painted_row_ok(rows[r], colors[r], piece_row(piece, r), piece.piece.rgb());
    }
    assert forall|r: int| 0 <= r < FIELD_ROWS && rows[r] == FULL_ROW implies #[trigger] rows2[r]
        == FULL_ROW by {
        lemma_or_full(piece_row(piece, r));
    }
}

/// Locking a piece keeps the state well formed. The count of the lock
/// delay before the lock does not matter: the lock ends it.
pub proof fn lemma_locked_keeps_wf(s: GameState, piece: CurrentPiece, drawn: Piece)
    requires
        (GameState { lock_ticks: 0, ..s }).wf(),
    ensures
        s.locked(piece, drawn).wf(),
{
    lemma_piece_joins_board(s.rows, s.colors, piece);
    let set = GameState { rows: with_piece(s.rows, piece), colors: painted(s.colors, piece), ..s };
    assert(pending_ok(set.rows, set.pending));
    if piece.top_row() < LOCK_OUT_ROW {
        if s.running {
            assert forall|r: int| LOCK_OUT_ROW <= r < FIELD_ROWS implies #[trigger] set.rows[r]
                == EMPTY_ROW by {
                lemma_piece_ends_at_its_top_row(s.rows, piece, r);
            }
        }
        let eased = GameState { lock_ticks: 0, ..set };
        lemma_landing_is_below(s.current, set.rows);
        lemma_new_piece_on_any_ghost(eased.with_next_taken(drawn), s.next[0]);
        assert(set.with_next_taken(drawn).with_new_piece(s.next[0]) == eased.with_next_taken(
            drawn,
        ).with_new_piece(s.next[0]));
    }
}

/// A field without one of its rows is a field.
proof fn lemma_without_row_board(rows: Seq<u16>, colors: Seq<Seq<Rgb>>, at: int)
    requires
        board_ok(rows, colors),
        0 <= at < FIELD_ROWS,
    ensures
        board_ok(without_row(rows, at, EMPTY_ROW), without_row(colors, at, blank_colors())),
{
    let rows2 = without_row(rows, at, EMPTY_ROW);
    let colors2 = without_row(colors, at, blank_colors());
    assert forall|r: int| 0 <= r < FIELD_ROWS implies row_ok(
        #[trigger] rows2[r],
        colors2[r],
    ) by {
        if r < at {
            assert(row_ok(rows[r], colors[r]));
        } else if r < FIELD_ROWS - 1 {
            assert(row_ok(rows[r + 1], colors[r + 1]));
        } else {
            assert forall|c: int| 0 <= c < FIELD_COLUMNS implies (has_cell(EMPTY_ROW, c as u16)
                <==> #[trigger] blank_colors()[c] != background()) by {
                lemma_empty_row(c as u16);
            }
            lemma_empty_row(0);
        }
    }
}

/// A field without some of its rows is a field, and if nothing was above
/// the visible rows, nothing is.
proof fn lemma_without_rows_board(rows: Seq<u16>, colors: Seq<Seq<Rgb>>, gone: Seq<u32>)
    requires
        board_ok(rows, colors),
        forall|i: int| 0 <= i < gone.len() ==> (#[trigger] gone[i]) < FIELD_ROWS,
    ensures
        board_ok(without_rows(rows, gone, EMPTY_ROW), without_rows(colors, gone, blank_colors())),
        hidden_rows_empty(rows) ==> hidden_rows_empty(without_rows(rows, gone, EMPTY_ROW)),
    decreases gone.len(),
{
    if gone.len() > 0 {
        let once = without_row(rows, gone.last() as int, EMPTY_ROW);
        if hidden_rows_empty(rows) {
            assert forall|r: int| LOCK_OUT_ROW <= r < FIELD_ROWS implies #[trigger] once[r]
                == EMPTY_ROW by {
                if r + 1 < FIELD_ROWS {
                    assert(rows[r] == EMPTY_ROW && rows[r + 1] == EMPTY_ROW);
                }
            }
        }
        lemma_without_row_board(rows, colors, gone.last() as int);
        lemma_without_rows_board(
            without_row(rows, gone.last() as int, EMPTY_ROW),
            without_row(colors, gone.last() as int, blank_colors()),
            gone.drop_last(),
        );
    }
}

/// Removing the pending rows keeps the state well formed.
pub proof fn lemma_cleared_keeps_wf(s: GameState)
    requires
        s.wf(),
    ensures
        s.cleared().wf(),
{
    lemma_without_rows_board(s.rows, s.colors, s.pending);
    lemma_curve_is_bounded(s.cleared().level as nat);
    lemma_landing_is_below(s.current, s.cleared().rows);
}

/// The fall of a tick keeps the state well formed.
pub proof fn lemma_fallen_keeps_wf(s: GameState)
    requires
        s.wf(),
    ensures
        s.fallen().wf(),
{
    let units = s.movement + s.fall_per_tick();
    assert(0 <= units % (ROW_UNITS as int) < ROW_UNITS);
    lemma_fall_is_below(s.current, s.rows, (units / ROW_UNITS as int) as nat);
    lemma_landing_is_below(s.fallen().current, s.rows);
}

/// The auto-repeat of a tick keeps the state well formed.
pub proof fn lemma_auto_shifted_keeps_wf(s: GameState)
    requires
        s.wf(),
        s.running,
    ensures
        s.auto_shifted().wf(),
        s.auto_shifted().running,
{
    if s.held_direction != HeldDirection::Neither && s.das_ticks >= s.rules.das_delay {
        let units = s.das_movement + s.rules.das_gravity;
        assert(0 <= units % (ROW_UNITS as int) < ROW_UNITS);
        let base = GameState { das_movement: (units % ROW_UNITS as int) as u64, ..s };
        lemma_shift_held_by_keeps_wf(base, (units / ROW_UNITS as int) as nat);
    }
}

/// The lock delay of a tick keeps the state well formed.
pub proof fn lemma_lock_ticked_keeps_wf(s: GameState, drawn: Piece)
    requires
        s.wf(),
        s.running,
    ensures
        s.lock_ticked(drawn).wf(),
{
    let counted = if s.ghost_piece.y == s.current.y {
        GameState { lock_ticks: (s.lock_ticks + 1) as u32, ..s }
    } else {
        s
    };
    if counted.lock_ticks >= counted.rules.lock_delay {
        lemma_locked_keeps_wf(counted, counted.current, drawn);
    }
}

/// The rows that a scan notes are rows of the field from `from` up, each
/// one full, in ascending order, and at most `room` of them.
proof fn lemma_full_rows(rows: Seq<u16>, from: int, room: nat)
    requires
        rows.len() == FIELD_ROWS,
        0 <= from <= FIELD_ROWS,
    ensures
        full_rows_from(rows, from, room).len() <= room,
        forall|i: int|
            0 <= i < full_rows_from(rows, from, room).len() ==> from <= (
            #[trigger] full_rows_from(rows, from, room)[i]) < FIELD_ROWS && rows[full_rows_from(
                rows,
                from,
                room,
            )[i] as int] == FULL_ROW,
        forall|i: int, j: int|
            0 <= i < j < full_rows_from(rows, from, room).len() ==> full_rows_from(
                rows,
                from,
                room,
            )[i] < full_rows_from(rows, from, room)[j],
    decreases FIELD_ROWS - from,
{
    if from < FIELD_ROWS && room > 0 {
        if rows[from] == FULL_ROW {
            lemma_full_rows(rows, from + 1, (room - 1) as nat);
        } else {
            lemma_full_rows(rows, from + 1, room);
        }
    }
}

/// A scan misses no full row below the last row that it notes: a full row
/// from `from` up is noted, unless the scan had no room left when it came
/// to it.
proof fn lemma_full_rows_are_the_lowest(rows: Seq<u16>, from: int, room: nat, r: int)
    requires
        rows.len() == FIELD_ROWS,
        0 <= from <= r < FIELD_ROWS,
        rows[r] == FULL_ROW,
    ensures
        is_gone(full_rows_from(rows, from, room), r) || (full_rows_from(rows, from, room).len()
            == room && forall|i: int|
            0 <= i < room ==> (#[trigger] full_rows_from(rows, from, room)[i]) < r),
    decreases FIELD_ROWS - from,
{
    let found = full_rows_from(rows, from, room);
    if room > 0 {
        if from == r {
            assert(found[0] == r);
        } else if rows[from] == FULL_ROW {
            let rest = full_rows_from(rows, from + 1, (room - 1) as nat);
            lemma_full_rows_are_the_lowest(rows, from + 1, (room - 1) as nat, r);
            if is_gone(rest, r) {
                let i = choose|i: int| 0 <= i < rest.len() && rest[i] == r;
                assert(found[i + 1] == r);
            } else {
                assert forall|i: int| 0 <= i < room implies (#[trigger] found[i]) < r by {
                    if i > 0 {
                        assert(found[i] == rest[i - 1]);
                    }
                }
            }
        } else {
            lemma_full_rows_are_the_lowest(rows, from + 1, room, r);
        }
    }
}

/// The rows that a tick notes for removal are the lowest full rows: each
/// noted row is full, and a full row that is not noted lies above four
/// that are.
pub proof fn lemma_scan_notes_the_lowest_full_rows(s: GameState, r: int)
    requires
        s.wf(),
        0 <= r < FIELD_ROWS,
        s.rows[r] == FULL_ROW,
    ensures
        is_gone(s.scanned().pending, r) || (s.scanned().pending.len() == 4 && forall|i: int|
            0 <= i < 4 ==> (#[trigger] s.scanned().pending[i]) < r),
{
    lemma_full_rows_are_the_lowest(s.rows, 0, 4, r);
}

/// Noting the full rows keeps the state well formed.
pub proof fn lemma_scanned_keeps_wf(s: GameState)
    requires
        s.wf(),
    ensures
        s.scanned().wf(),
{
    lemma_full_rows(s.rows, 0, 4);
}

/// A game starts in a well-formed state.
pub proof fn lemma_initial_wf(first: Piece, next: Seq<Piece>)
    requires
        next.len() == 6,
    ensures
        GameState::initial(first, next).wf(),
{
    let s = GameState::initial(first, next);
    assert forall|r: int| 0 <= r < FIELD_ROWS implies row_ok(
        #[trigger] s.rows[r],
        s.colors[r],
    ) by {
        lemma_empty_row(0);
        assert forall|c: int| 0 <= c < FIELD_COLUMNS implies (has_cell(EMPTY_ROW, c as u16)
            <==> #[trigger] blank_colors()[c] != background()) by {
            lemma_empty_row(c as u16);
        }
    }
    lemma_landing_is_below(first.spawned(), s.rows);
    lemma_curve_is_bounded(0);
    lemma_curve_is_bounded(1);
}

/// When a game starts, the falling piece fits and its ghost is on the
/// floor.
pub proof fn lemma_initial_piece_fits(first: Piece, next: Seq<Piece>)
    ensures
        GameState::initial(first, next).piece_fits(),
        GameState::initial(first, next).ghost_piece == first.spawned().at_row(0),
{
    lemma_fits_empty_field(first.spawned());
    lemma_lands_on_the_floor(first.spawned());
}

/// Every request of the player keeps the state well formed.
pub proof fn lemma_intents_keep_wf(s: GameState, flag: bool, drawn: Piece)
    requires
        s.wf(),
    ensures
        s.after_move_left().wf(),
        s.after_move_right().wf(),
        s.after_set_left(flag).wf(),
        s.after_set_right(flag).wf(),
        s.after_set_drop(flag).wf(),
        s.after_hold(drawn).wf(),
        s.after_hard_drop(drawn).wf(),
{
    if s.running {
        lemma_shift_keeps_wf(s);
        lemma_locked_keeps_wf(s, s.ghost_piece, drawn);
        if !s.hold_lock {
            let kept = GameState { held: Some(s.current.piece), ..s };
            match s.held {
                Some(piece) => lemma_new_piece_keeps_wf(kept, piece),
                None => lemma_new_piece_keeps_wf(kept.with_next_taken(drawn), s.next[0]),
            }
        }
    }
}

/// A turn keeps the state well formed, provided that the placement which
/// the rotation system answers fits the field.
pub proof fn lemma_rotation_keeps_wf(s: GameState, turned: Option<CurrentPiece>)
    requires
        s.wf(),
        turned matches Some(placed) ==> !placed.collides_with(s.rows),
    ensures
        s.after_rotation(turned).wf(),
{
    if s.running {
        if let Some(placed) = turned {
            lemma_moved_to_keeps_wf(s, placed);
        }
    }
}

/// A tick keeps the state well formed.
pub proof fn lemma_update_keeps_wf(s: GameState, drawn: Piece)
    requires
        s.wf(),
    ensures
        s.after_update(drawn).wf(),
{
    if s.running {
        if s.pending.len() > 0 {
            lemma_cleared_keeps_wf(s);
        } else {
            lemma_fallen_keeps_wf(s);
            lemma_auto_shifted_keeps_wf(s.fallen());
            lemma_lock_ticked_keeps_wf(s.fallen().auto_shifted(), drawn);
            lemma_scanned_keeps_wf(s.fallen().auto_shifted().lock_ticked(drawn));
        }
    }
}

proof fn lemma_all_gone_below(gone: Seq<u32>, r: int)
    requires
        forall|i: int| 0 <= i < gone.len() ==> (#[trigger] gone[i]) < r,
    ensures
        gone_below(gone, r) == gone.len(),
    decreases gone.len(),
{
    if gone.len() > 0 {
        lemma_all_gone_below(gone.drop_last(), r);
    }
}

proof fn lemma_ascending_from_zero(gone: Seq<u32>, i: int)
    requires
        forall|i: int, j: int| 0 <= i < j < gone.len() ==> gone[i] < gone[j],
        0 <= i < gone.len(),
    ensures
        gone[i] >= i,
    decreases i,
{
    if i > 0 {
        lemma_ascending_from_zero(gone, i - 1);
    }
}

/// Fewer rows are gone below a row than there are rows below it.
proof fn lemma_gone_below_bound(gone: Seq<u32>, r: int)
    requires
        forall|i: int, j: int| 0 <= i < j < gone.len() ==> gone[i] < gone[j],
        0 <= r,
    ensures
        gone_below(gone, r) <= r,
        gone_below(gone, r) <= gone.len(),
    decreases gone.len(),
{
    if gone.len() > 0 {
        let rest = gone.drop_last();
        lemma_gone_below_bound(rest, r);
        if gone.last() < r {
            assert forall|i: int| 0 <= i < rest.len() implies (#[trigger] rest[i]) < r by {
                assert(rest[i] == gone[i]);
            }
            lemma_all_gone_below(rest, r);
            lemma_ascending_from_zero(gone, gone.len() - 1);
        }
    }
}

/// What is left of a grid when rows are removed. The grid keeps its
/// height. Every row that stays moves down by the number of removed rows
/// below it, and as many rows at the top as were removed are blank.
pub proof fn lemma_rows_move_down<T>(grid: Seq<T>, gone: Seq<u32>, blank: T)
    requires
        forall|i: int| 0 <= i < gone.len() ==> (#[trigger] gone[i]) < grid.len(),
        forall|i: int, j: int| 0 <= i < j < gone.len() ==> gone[i] < gone[j],
    ensures
        without_rows(grid, gone, blank).len() == grid.len(),
        forall|r: int|
            #![trigger gone_below(gone, r)]
            0 <= r < grid.len() && !is_gone(gone, r) ==> {
                &&& 0 <= r - gone_below(gone, r)
                &&& without_rows(grid, gone, blank)[r - gone_below(gone, r)] == grid[r]
            },
        forall|r: int|
            0 <= r && grid.len() - gone.len() <= r < grid.len() ==> #[trigger] without_rows(
                grid,
                gone,
                blank,
            )[r] == blank,
    decreases gone.len(),
{
    if gone.len() > 0 {
        let top = gone.last() as int;
        let rest = gone.drop_last();
        let once = without_row(grid, top, blank);
        let out = without_rows(grid, gone, blank);
        let last = grid.len() - 1;
        assert(gone[gone.len() - 1] == top);
        assert forall|i: int| 0 <= i < rest.len() implies (#[trigger] rest[i]) < top by {
            assert(rest[i] == gone[i]);
        }
        lemma_rows_move_down(once, rest, blank);
        lemma_all_gone_below(rest, last);
        lemma_ascending_from_zero(gone, gone.len() - 1);
        assert(once[last] == blank);
        assert(!is_gone(rest, last));
        assert(out[last - rest.len()] == once[last]);
        assert forall|r: int|
            #![trigger gone_below(gone, r)]
            0 <= r < grid.len() && !is_gone(gone, r) implies {
            &&& 0 <= r - gone_below(gone, r)
            &&& out[r - gone_below(gone, r)] == grid[r]
        } by {
            lemma_gone_below_bound(gone, r);
            if r < top {
                assert(once[r] == grid[r]);
                if is_gone(rest, r) {
                    let i = choose|i: int| 0 <= i < rest.len() && rest[i] == r;
                    assert(gone[i] == r);
                }
                assert(gone_below(gone, r) == gone_below(rest, r));
                assert(out[r - gone_below(rest, r)] == once[r]);
            } else {
                assert(once[r - 1] == grid[r]);
                assert(!is_gone(rest, r - 1));
                lemma_all_gone_below(rest, r - 1);
                lemma_all_gone_below(rest, r);
                assert(out[(r - 1) - gone_below(rest, r - 1)] == once[r - 1]);
            }
        }
        assert forall|r: int|
            0 <= r && grid.len() - gone.len() <= r < grid.len() implies #[trigger] out[r]
            == blank by {
            if r == grid.len() - gone.len() {
                assert(out[last - rest.len()] == once[last]);
            }
        }
    }
}

/// The rows that a tick removes are exactly the pending rows. Masks and
/// colours of every other row move down by the number of pending rows below
/// it, and as many rows at the top as were pending are empty.
pub proof fn lemma_cleared_rows(s: GameState)
    requires
        s.wf(),
    ensures
        forall|r: int|
            #![trigger gone_below(s.pending, r)]
            0 <= r < FIELD_ROWS && !is_gone(s.pending, r) ==> {
                &&& 0 <= r - gone_below(s.pending, r)
                &&& s.cleared().rows[r - gone_below(s.pending, r)] == s.rows[r]
            },
        forall|r: int|
            #![trigger gone_below(s.pending, r)]
            0 <= r < FIELD_ROWS && !is_gone(s.pending, r) ==> {
                &&& 0 <= r - gone_below(s.pending, r)
                &&& s.cleared().colors[r - gone_below(s.pending, r)] == s.colors[r]
            },
        forall|r: int|
            FIELD_ROWS - s.pending.len() <= r < FIELD_ROWS ==> #[trigger] s.cleared().rows[r]
                == EMPTY_ROW,
        forall|r: int|
            FIELD_ROWS - s.pending.len() <= r < FIELD_ROWS ==> #[trigger] s.cleared().colors[r]
                == blank_colors(),
{
    lemma_rows_move_down(s.rows, s.pending, EMPTY_ROW);
    lemma_rows_move_down(s.colors, s.pending, blank_colors());
}

/// A second hold with no lock between does nothing: whatever the
/// randomizer would deal, the state after the first hold stays.
pub proof fn lemma_second_hold_is_idle(s: GameState, first: Piece, second: Piece)
    ensures
        s.after_hold(first).after_hold(second) == s.after_hold(first),
{
}

/// The lock delay starts anew only at the cost of a reset: a move or turn
/// either leaves the count of the delay and the resets used as they are, or
/// sets the count to zero and uses up one more reset.
pub proof fn lemma_reset_uses_a_try(s: GameState, turned: Option<CurrentPiece>)
    ensures
        reset_or_kept(s, s.after_move_left()),
        reset_or_kept(s, s.after_move_right()),
        reset_or_kept(s, s.after_rotation(turned)),
{
}

/// When the resets of a piece are used up, no move and no turn starts the
/// lock delay anew: the count runs on.
pub proof fn lemma_spent_resets_keep_count(s: GameState, turned: Option<CurrentPiece>)
    requires
        s.lock_tries >= s.rules.lock_resets,
    ensures
        s.after_move_left().lock_ticks == s.lock_ticks,
        s.after_move_right().lock_ticks == s.lock_ticks,
        s.after_rotation(turned).lock_ticks == s.lock_ticks,
        s.after_move_left().lock_tries == s.lock_tries,
        s.after_move_right().lock_tries == s.lock_tries,
        s.after_rotation(turned).lock_tries == s.lock_tries,
{
}

proof fn lemma_spent_shifts_keep_count(s: GameState, steps: nat)
    requires
        s.lock_tries >= s.rules.lock_resets,
    ensures
        s.shift_held_by(steps).lock_ticks == s.lock_ticks,
        s.shift_held_by(steps).lock_tries == s.lock_tries,
        s.shift_held_by(steps).rules == s.rules,
    decreases steps,
{
    if steps > 0 {
        lemma_spent_shifts_keep_count(s.shift_held(), (steps - 1) as nat);
    }
}

/// When the resets of a piece are used up, the lock delay runs out however
/// the piece is moved. A tick that does not lock the piece leaves the count
/// of the delay no lower than it was, and a tick in which the piece is in
/// the row of its ghost raises it by one; by `lemma_spent_resets_keep_count`
/// no request between the ticks lowers it.
pub proof fn lemma_spent_resets_let_the_delay_run(s: GameState, drawn: Piece)
    requires
        s.running,
        s.pending.len() == 0,
        s.lock_tries >= s.rules.lock_resets,
        !s.fallen().auto_shifted().lock_is_due(),
    ensures
        s.after_update(drawn).lock_tries == s.lock_tries,
        s.after_update(drawn).lock_ticks >= s.lock_ticks,
        s.fallen().auto_shifted().ghost_piece.y == s.fallen().auto_shifted().current.y
            ==> s.after_update(drawn).lock_ticks == s.lock_ticks + 1,
{
    let fallen = s.fallen();
    if fallen.held_direction != HeldDirection::Neither && fallen.das_ticks
        >= fallen.rules.das_delay {
        let more = fallen.das_movement + fallen.rules.das_gravity;
        lemma_spent_shifts_keep_count(
            GameState { das_movement: (more % (ROW_UNITS as int)) as u64, ..fallen },
            (more / (ROW_UNITS as int)) as nat,
        );
    }
}

/// Whether `after` has the lock counters of `before`, or has the count of
/// the delay at zero and one more reset used.
pub open spec fn reset_or_kept(before: GameState, after: GameState) -> bool {
    ||| after.lock_ticks == before.lock_ticks && after.lock_tries == before.lock_tries
    ||| after.lock_ticks == 0 && before.lock_ticks > 0 && after.lock_tries == before.lock_tries
        + 1 && after.lock_tries <= before.rules.lock_resets
}

/// A piece that tries to move down ends where it fits, if it fitted where
/// it began.
proof fn lemma_fall_fits(piece: CurrentPiece, rows: Seq<u16>, steps: nat)
    requires
        !piece.collides_with(rows),
    ensures
        !fall(piece, rows, steps).collides_with(rows),
    decreases steps,
{
    if steps > 0 {
        lemma_fall_fits(step_down(piece, rows), rows, (steps - 1) as nat);
    }
}

proof fn lemma_shift_held_by_fits(s: GameState, steps: nat)
    requires
        s.piece_fits(),
    ensures
        s.shift_held_by(steps).piece_fits(),
    decreases steps,
{
    if steps > 0 {
        lemma_shift_held_by_fits(s.shift_held(), (steps - 1) as nat);
    }
}

/// While the game goes on, the falling piece lies on no set cell. Every
/// request and every tick that removes no rows keeps it so, provided that
/// the placements which the rotation system answers fit the field.
///
/// A tick that removes rows is left out: the rows above a removed row move
/// down, and a set cell that was directly above a cell of the piece then
/// lies on it.
pub proof fn lemma_piece_keeps_fitting(
    s: GameState,
    flag: bool,
    drawn: Piece,
    turned: Option<CurrentPiece>,
)
    requires
        s.piece_fits(),
        turned matches Some(placed) ==> !placed.collides_with(s.rows),
    ensures
        s.after_move_left().piece_fits(),
        s.after_move_right().piece_fits(),
        s.after_rotation(turned).piece_fits(),
        s.after_set_left(flag).piece_fits(),
        s.after_set_right(flag).piece_fits(),
        s.after_set_drop(flag).piece_fits(),
        s.after_hold(drawn).piece_fits(),
        s.after_hard_drop(drawn).piece_fits(),
        s.pending.len() == 0 ==> s.after_update(drawn).piece_fits(),
{
    if s.running && s.pending.len() == 0 {
        let units = s.movement + s.fall_per_tick();
        lemma_fall_fits(s.current, s.rows, (units / (ROW_UNITS as int)) as nat);
        let fallen = s.fallen();
        if fallen.held_direction != HeldDirection::Neither && fallen.das_ticks
            >= fallen.rules.das_delay {
            let more = fallen.das_movement + fallen.rules.das_gravity;
            lemma_shift_held_by_fits(
                GameState { das_movement: (more % (ROW_UNITS as int)) as u64, ..fallen },
                (more / (ROW_UNITS as int)) as nat,
            );
        }
    }
}

/// Only a hold sets the hold lock: after any other request and after a
/// tick, the lock is set only if it was set before.
pub proof fn lemma_only_hold_sets_the_hold_lock(
    s: GameState,
    flag: bool,
    drawn: Piece,
    turned: Option<CurrentPiece>,
)
    ensures
        s.after_move_left().hold_lock ==> s.hold_lock,
        s.after_move_right().hold_lock ==> s.hold_lock,
        s.after_rotation(turned).hold_lock ==> s.hold_lock,
        s.after_set_left(flag).hold_lock ==> s.hold_lock,
        s.after_set_right(flag).hold_lock ==> s.hold_lock,
        s.after_set_drop(flag).hold_lock ==> s.hold_lock,
        s.after_hard_drop(drawn).hold_lock ==> s.hold_lock,
        s.after_update(drawn).hold_lock ==> s.hold_lock,
        s.hard_drop_draws() ==> !s.after_hard_drop(drawn).hold_lock,
{
    if s.running && s.pending.len() == 0 {
        let fallen = s.fallen();
        if fallen.held_direction != HeldDirection::Neither && fallen.das_ticks
            >= fallen.rules.das_delay {
            let more = fallen.das_movement + fallen.rules.das_gravity;
            lemma_shifts_keep_hold_lock(
                GameState { das_movement: (more % (ROW_UNITS as int)) as u64, ..fallen },
                (more / (ROW_UNITS as int)) as nat,
            );
        }
    }
}

proof fn lemma_shifts_keep_hold_lock(s: GameState, steps: nat)
    ensures
        s.shift_held_by(steps).hold_lock == s.hold_lock,
    decreases steps,
{
    if steps > 0 {
        lemma_shifts_keep_hold_lock(s.shift_held(), (steps - 1) as nat);
    }
}

/// While the game goes on, a fresh piece fits where it appears: the rows
/// above the visible ones hold nothing, so no fresh piece ends the game.
pub proof fn lemma_fresh_piece_fits(s: GameState, piece: Piece)
    requires
        s.wf(),
        s.running,
    ensures
        !piece.spawned().collides_with(s.rows),
        s.with_new_piece(piece).running,
        s.with_new_piece(piece).current == piece.spawned(),
        s.with_new_piece(piece).ghost_piece == landing(piece.spawned(), s.rows),
{
    lemma_fresh_piece_fits_empty_rows(s.rows, piece);
}

proof fn lemma_fresh_piece_fits_empty_rows(rows: Seq<u16>, piece: Piece)
    requires
        rows.len() == FIELD_ROWS,
        hidden_rows_empty(rows),
    ensures
        !piece.spawned().collides_with(rows),
{
    let fresh = piece.spawned();
    lemma_shape_has_four_cells(fresh.piece, fresh.rotation);
    let shape = shape_rows(fresh.piece, fresh.rotation);
    lemma_shape_clear_of_wall(shape[0], fresh.x);
    lemma_shape_clear_of_wall(shape[1], fresh.x);
    lemma_shape_clear_of_wall(shape[2], fresh.x);
    lemma_shape_clear_of_wall(shape[3], fresh.x);
    assert(rows[fresh.y + 0] == EMPTY_ROW);
    assert(rows[fresh.y + 1] == EMPTY_ROW);
    assert(rows[fresh.y + 2] == EMPTY_ROW);
    assert(rows[fresh.y + 3] == EMPTY_ROW);
}

/// What a lock paints: a cell of the field has the colour of the piece
/// where the piece has a cell, and its old colour elsewhere.
pub proof fn lemma_lock_paints_the_cells(colors: Seq<Seq<Rgb>>, piece: CurrentPiece, r: int, c: int)
    requires
        0 <= r < colors.len(),
        0 <= c < colors[r].len(),
    ensures
        painted(colors, piece)[r][c] == if has_cell(piece_row(piece, r), c as u16) {
            piece.piece.rgb()
        } else {
            colors[r][c]
        },
{
}

/// A lock of a piece that lies wholly in the visible rows, in a game that
/// goes on. The cells of the piece are set and painted. The game goes on
/// with the first piece of the queue, fresh where it appears and with its
/// ghost where it lands; the queue moves up and `drawn` joins it at the
/// end; the counters of the piece start from nothing and the hold lock is
/// cleared. Nothing else changes.
pub proof fn lemma_lock_takes_the_next_piece(s: GameState, piece: CurrentPiece, drawn: Piece)
    requires
        s.wf(),
        s.running,
        piece.top_row() < LOCK_OUT_ROW,
    ensures
        s.locked(piece, drawn) == (GameState {
            rows: with_piece(s.rows, piece),
            colors: painted(s.colors, piece),
            current: s.next[0].spawned(),
            ghost_piece: landing(s.next[0].spawned(), with_piece(s.rows, piece)),
            next: seq![s.next[1], s.next[2], s.next[3], s.next[4], s.next[5], drawn],
            hold_lock: false,
            movement: 0,
            lock_ticks: 0,
            lock_tries: 0,
            ..s
        }),
        s.locked(piece, drawn).running,
{
    lemma_locked_keeps_wf(s, piece, drawn);
    let set = GameState { rows: with_piece(s.rows, piece), colors: painted(s.colors, piece), ..s };
    assert forall|r: int| LOCK_OUT_ROW <= r < FIELD_ROWS implies #[trigger] set.rows[r]
        == EMPTY_ROW by {
        lemma_piece_ends_at_its_top_row(s.rows, piece, r);
    }
    lemma_piece_joins_board(s.rows, s.colors, piece);
    lemma_fresh_piece_fits_empty_rows(set.rows, s.next[0]);
    assert(s.next.drop_first().push(drawn) =~= seq![
        s.next[1],
        s.next[2],
        s.next[3],
        s.next[4],
        s.next[5],
        drawn,
    ]);
}

/// A lock of a piece that has a cell above the visible rows ends the game.
/// The cells of the piece are set and painted, and nothing else changes: no
/// piece is taken from the queue, and the piece that fell stays the piece
/// of the game.
pub proof fn lemma_lock_out_ends_the_game(s: GameState, piece: CurrentPiece, drawn: Piece)
    requires
        piece.top_row() >= LOCK_OUT_ROW,
    ensures
        s.locked(piece, drawn) == (GameState {
            running: false,
            rows: with_piece(s.rows, piece),
            colors: painted(s.colors, piece),
            ..s
        }),
{
}

/// Whether the lock counters of `after` are those that the rule of the
/// reset budget gives for a move made in `before`: where the delay has
/// begun to run and resets are left, the count is zero and one more reset
/// is used; otherwise both counters are as they were.
pub open spec fn restarted(before: GameState, after: GameState) -> bool {
    if before.lock_ticks > 0 && before.lock_tries < before.rules.lock_resets {
        after.lock_ticks == 0 && after.lock_tries == before.lock_tries + 1
    } else {
        after.lock_ticks == before.lock_ticks && after.lock_tries == before.lock_tries
    }
}

/// Whether `after` is `before` after a move or turn that succeeded: the
/// piece fits where it is, its ghost is where it lands, and the lock
/// counters are as the rule of the reset budget says.
pub open spec fn moved(before: GameState, after: GameState) -> bool {
    &&& restarted(before, after)
    &&& ghost_is_true(after)
    &&& after.rows == before.rows
}

/// The rule of the reset budget, of every request that moves the piece. A
/// move or turn that succeeds leaves the lock counters as the rule says; one
/// that fails changes nothing at all.
pub proof fn lemma_moves_restart_the_delay_by_the_rule(
    s: GameState,
    turned: Option<CurrentPiece>,
)
    ensures
        s.after_move_left() == s || restarted(s, s.after_move_left()),
        s.after_move_right() == s || restarted(s, s.after_move_right()),
        s.after_rotation(turned) == s || restarted(s, s.after_rotation(turned)),
        s.after_move_left().current != s.current ==> restarted(s, s.after_move_left()),
        s.after_move_right().current != s.current ==> restarted(s, s.after_move_right()),
        s.running && turned is Some ==> restarted(s, s.after_rotation(turned)),
{
}

/// A piece that cannot move down stays where it is, however often it
/// tries.
proof fn lemma_fall_stays(piece: CurrentPiece, rows: Seq<u16>, steps: nat)
    requires
        step_down(piece, rows) == piece,
    ensures
        fall(piece, rows, steps) == piece,
    decreases steps,
{
    if steps > 0 {
        lemma_fall_stays(piece, rows, (steps - 1) as nat);
    }
}

/// Whether the ghost of `s` is where the falling piece lands now, and the
/// piece fits where it is.
pub open spec fn ghost_is_true(s: GameState) -> bool {
    !s.current.collides_with(s.rows) && s.ghost_piece == landing(s.current, s.rows)
}

/// The requests that move the piece leave its ghost where it lands,
/// provided that the placements which the rotation system answers fit.
pub proof fn lemma_moves_keep_the_ghost_true(s: GameState, turned: Option<CurrentPiece>)
    requires
        ghost_is_true(s),
        turned matches Some(placed) ==> !placed.collides_with(s.rows),
    ensures
        ghost_is_true(s.after_move_left()),
        ghost_is_true(s.after_move_right()),
        ghost_is_true(s.after_rotation(turned)),
{
}

/// Whether the next tick finds the piece at rest with the lock delay about
/// to run out: the game goes on, no rows are pending, no direction repeats,
/// the piece fits and is in the row of its ghost, and the count of the
/// delay is one short of the delay or beyond.
pub open spec fn delay_runs_out_at_rest(s: GameState) -> bool {
    &&& s.running
    &&& s.pending.len() == 0
    &&& s.held_direction == HeldDirection::Neither
    &&& !s.current.collides_with(s.rows)
    &&& s.ghost_piece.y == s.current.y
    &&& s.lock_ticks + 1 >= s.rules.lock_delay
}

/// The lock delay runs out. In a tick in which the piece rests in the row
/// of its ghost and the count of the delay reaches the delay, the piece is
/// locked where it is: the state after the tick is that of the lock of the
/// piece, with the full rows noted. By `lemma_spent_resets_keep_count`,
/// moves that are made when the resets are used up change nothing of what
/// is asked here but the place of the piece.
///
/// The piece is asked to fit where it is. The one way in which a game comes
/// to a piece that does not is a tick that removes rows under a piece with
/// a set cell directly above one of its cells; such a piece may move down
/// in the tick instead of being locked.
pub proof fn lemma_grounded_piece_locks_when_the_delay_runs_out(s: GameState, drawn: Piece)
    requires
        s.wf(),
        delay_runs_out_at_rest(s),
    ensures
        s.after_update(drawn) == (GameState {
            lock_ticks: (s.lock_ticks + 1) as u32,
            ..s.fallen()
        }).locked(s.current, drawn).scanned(),
        s.fallen().current == s.current,
        s.after_update(drawn).rows == with_piece(s.rows, s.current),
        s.after_update(drawn).colors == painted(s.colors, s.current),
        s.current.top_row() < LOCK_OUT_ROW ==> {
            &&& s.after_update(drawn).running
            &&& s.after_update(drawn).current == s.next[0].spawned()
            &&& s.after_update(drawn).next == seq![
                s.next[1],
                s.next[2],
                s.next[3],
                s.next[4],
                s.next[5],
                drawn,
            ]
        },
        s.current.top_row() >= LOCK_OUT_ROW ==> {
            &&& !s.after_update(drawn).running
            &&& s.after_update(drawn).current == s.current
            &&& s.after_update(drawn).next == s.next
        },
{
    lemma_landing_is_lowest(s.current, s.rows);
    let units = s.movement + s.fall_per_tick();
    lemma_fall_stays(s.current, s.rows, (units / (ROW_UNITS as int)) as nat);
    lemma_fallen_keeps_wf(s);
    let fallen = s.fallen();
    let counted = GameState { lock_ticks: (fallen.lock_ticks + 1) as u32, ..fallen };
    assert(fallen.lock_ticked(drawn) == counted.locked(counted.current, drawn));
    if s.current.top_row() < LOCK_OUT_ROW {
        let eased = GameState { lock_ticks: 0, ..fallen };
        lemma_lock_takes_the_next_piece(eased, s.current, drawn);
        assert(counted.locked(s.current, drawn) == eased.locked(s.current, drawn));
    }
}

/// A fall leaves the ghost where it is, for a piece that fits: the piece
/// moves down the rows through which it would be dropped, and lands where
/// it would have landed.
pub proof fn lemma_fall_keeps_the_ghost(s: GameState)
    requires
        s.wf(),
        s.running,
        !s.current.collides_with(s.rows),
    ensures
        s.fallen().ghost_piece == s.ghost_piece,
        !s.fallen().current.collides_with(s.rows),
        s.fallen().current.y >= s.ghost_piece.y,
{
    let units = s.movement + s.fall_per_tick();
    lemma_fall_lands_the_same(s.current, s.rows, (units / (ROW_UNITS as int)) as nat);
}

proof fn lemma_fall_lands_the_same(piece: CurrentPiece, rows: Seq<u16>, steps: nat)
    requires
        !piece.collides_with(rows),
    ensures
        !fall(piece, rows, steps).collides_with(rows),
        landing(fall(piece, rows, steps), rows) == landing(piece, rows),
        fall(piece, rows, steps).y >= landing(piece, rows).y,
    decreases steps,
{
    lemma_landing_is_below(piece, rows);
    if steps > 0 {
        let next = step_down(piece, rows);
        lemma_fall_lands_the_same(next, rows, (steps - 1) as nat);
        if next != piece {
            assert(piece.at_row(next.y) == next);
            assert(next.at_row(landing_row(next, rows, next.y)) == piece.at_row(
                landing_row(piece, rows, next.y),
            )) by {
                lemma_landing_row_of_the_same_piece(piece, next, rows, next.y);
            }
        }
    }
}

/// The landing row does not depend on the row in which the piece is said
/// to be.
proof fn lemma_landing_row_of_the_same_piece(
    a: CurrentPiece,
    b: CurrentPiece,
    rows: Seq<u16>,
    from: u32,
)
    requires
        b == a.at_row(b.y),
    ensures
        landing_row(a, rows, from) == landing_row(b, rows, from),
        b.at_row(landing_row(b, rows, from)) == a.at_row(landing_row(a, rows, from)),
    decreases from,
{
    if from > 0 {
        assert(a.at_row((from - 1) as u32) == b.at_row((from - 1) as u32));
        lemma_landing_row_of_the_same_piece(a, b, rows, (from - 1) as u32);
    }
}

/// The ghost of a game that goes on. It is the falling piece in a row that
/// is not higher. If the piece fits where it is, every row from there down
/// to the ghost is free for it and the row below the ghost is not: a piece
/// that is dropped now comes to rest in its ghost.
pub proof fn lemma_ghost_is_where_the_piece_lands(s: GameState)
    requires
        s.wf(),
        s.running,
    ensures
        s.ghost_piece == landing(s.current, s.rows),
        s.ghost_piece == s.current.at_row(s.ghost_piece.y),
        s.ghost_piece.y <= s.current.y,
        !s.current.collides_with(s.rows) ==> {
            &&& forall|y: u32|
                s.ghost_piece.y <= y <= s.current.y ==> !(#[trigger] s.current.at_row(
                    y,
                )).collides_with(s.rows)
            &&& s.ghost_piece.y == 0 || s.current.at_row(
                (s.ghost_piece.y - 1) as u32,
            ).collides_with(s.rows)
        },
{
    lemma_landing_is_below(s.current, s.rows);
    if !s.current.collides_with(s.rows) {
        lemma_landing_is_lowest(s.current, s.rows);
    }
}

/// The tick that removes rows puts the ghost where the piece lands on the
/// rows that are left.
pub proof fn lemma_clearing_tick_finds_the_ghost(s: GameState, drawn: Piece)
    requires
        s.wf(),
        s.running,
        s.pending.len() > 0,
    ensures
        s.after_update(drawn) == s.cleared(),
        s.after_update(drawn).wf(),
        s.after_update(drawn).running,
        s.after_update(drawn).current == s.current,
        s.after_update(drawn).ghost_piece == landing(s.current, s.after_update(drawn).rows),
{
    lemma_cleared_keeps_wf(s);
}

proof fn lemma_cells_of_full_and_empty_rows()
    by (bit_vector)
    ensures
        playable_cells(FULL_ROW) == 10,
        playable_cells(EMPTY_ROW) == 0,
{
}

proof fn lemma_cells_without_one(rows: Seq<u16>, at: int)
    requires
        0 <= at < rows.len(),
    ensures
        cells_in(rows.remove(at)) == cells_in(rows) - playable_cells(rows[at]),
    decreases rows.len(),
{
    if at == rows.len() - 1 {
        assert(rows.remove(at) =~= rows.drop_last());
    } else {
        lemma_cells_without_one(rows.drop_last(), at);
        assert(rows.remove(at).drop_last() =~= rows.drop_last().remove(at));
        assert(rows.remove(at).last() == rows.last());
    }
}

/// Removing full rows takes ten cells for each row.
proof fn lemma_cells_without_rows(rows: Seq<u16>, gone: Seq<u32>)
    requires
        forall|i: int|
            0 <= i < gone.len() ==> (#[trigger] gone[i]) < rows.len() && rows[gone[i] as int]
                == FULL_ROW,
        forall|i: int, j: int| 0 <= i < j < gone.len() ==> gone[i] < gone[j],
    ensures
        cells_in(without_rows(rows, gone, EMPTY_ROW)) == cells_in(rows) - 10 * gone.len(),
    decreases gone.len(),
{
    if gone.len() > 0 {
        let top = gone.last() as int;
        let rest = gone.drop_last();
        let once = without_row(rows, top, EMPTY_ROW);
        lemma_cells_of_full_and_empty_rows();
        lemma_cells_without_one(rows, top);
        assert(once.drop_last() =~= rows.remove(top));
        assert forall|i: int| 0 <= i < rest.len() implies (#[trigger] rest[i]) < once.len()
            && once[rest[i] as int] == FULL_ROW by {
            assert(rest[i] == gone[i]);
            assert(gone[i] < gone[gone.len() - 1]);
        }
        lemma_cells_without_rows(once, rest);
    }
}

/// A tick that removes rows takes ten cells from the field for each row
/// that was pending.
pub proof fn lemma_clear_takes_ten_cells_a_row(s: GameState)
    requires
        s.wf(),
    ensures
        cells_in(s.cleared().rows) == cells_in(s.rows) - 10 * s.pending.len(),
{
    lemma_cells_without_rows(s.rows, s.pending);
}

} // verus!
