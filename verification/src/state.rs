//! The state of a game as a value, and every step of the rules as a
//! function from state to state.
//!
//! Nothing here is executable. The engine in `game` keeps these values in
//! arrays and counters, and each of its operations is stated as one of the
//! functions below.

use vstd::prelude::*;
use crate::gravity::{gravity_curve, MAX_GRAVITY, ROW_UNITS};
use crate::piece::{cell, has_cell, CurrentPiece, Piece, Rgb, FIELD_COLUMNS, FIELD_ROWS};

verus! {

/// A row without cells: only the wall on the right is set.
pub const EMPTY_ROW: u16 = 0xFC00;

/// A row in which every column is set.
pub const FULL_ROW: u16 = 0xFFFF;

/// The first row above the visible rows 0 to 19. A piece that is locked
/// with a cell in this row or above it ends the game.
pub const LOCK_OUT_ROW: u32 = 20;

/// Number of upcoming pieces that the preview queue holds.
pub const PREVIEW: usize = 6;

/// Most rows that one lock can complete.
pub const MAX_CLEARS: usize = 4;

/// The colour of a cell that holds nothing.
pub open spec fn background() -> Rgb {
    (0u8, 0u8, 0u8)
}

/// The horizontal direction that is held down and repeats.
#[derive(Debug, Default, Clone, Copy, PartialEq, Eq, Structural)]
pub enum HeldDirection {
    #[default]
    Neither,
    Left,
    Right,
}

/// The tuning constants of a game.
#[derive(Debug, Clone, Copy, PartialEq, Eq, Structural)]
pub struct Ruleset {
    /// Ticks for which a direction is held before it repeats.
    pub das_delay: u32,
    /// Units per tick at which a held direction repeats; `ROW_UNITS` units
    /// are one column.
    pub das_gravity: u64,
    /// Factor on the fall while soft drop is held.
    pub drop_gravity_multiplier: u64,
    /// Ticks that a piece may rest on the ground before it is locked.
    pub lock_delay: u32,
    /// Number of times that a move may restart the lock delay of one piece.
    pub lock_resets: u32,
    /// Lines to clear for a level, and the lines more for each level
    /// reached.
    pub line_clear_constant: u32,
    pub line_clear_coeff: u32,
}

impl Ruleset {
    /// The rules that every game is played by.
    pub open spec fn standard() -> Ruleset {
        Ruleset {
            das_delay: 18,
            das_gravity: 30_000_000,
            drop_gravity_multiplier: 20,
            lock_delay: 60,
            lock_resets: 25,
            line_clear_constant: 10,
            line_clear_coeff: 0,
        }
    }

    /// Bounds within which the counters of the engine cannot overflow.
    pub open spec fn valid(self) -> bool {
        &&& self.lock_delay >= 1
        &&& self.das_gravity <= MAX_GRAVITY
        &&& self.drop_gravity_multiplier <= 1000
    }

    /// Lines to clear at `level` before the next level is reached.
    pub open spec fn lines_for_level(self, level: u32) -> int {
        self.line_clear_constant + level * self.line_clear_coeff
    }
}

/// Everything that the rules read and change.
#[verifier::ext_equal]
pub struct GameState {
    /// False once the game has ended.
    pub running: bool,
    /// The piece that falls.
    pub current: CurrentPiece,
    /// The ghost: the falling piece where it lands if it is dropped now.
    pub ghost_piece: CurrentPiece,
    /// The preview queue, next piece first.
    pub next: Seq<Piece>,
    /// The playfield as row masks, lowest row first.
    pub rows: Seq<u16>,
    /// The colour of each cell, by row and column.
    pub colors: Seq<Seq<Rgb>>,
    pub held: Option<Piece>,
    /// Set by a hold, cleared by the next lock.
    pub hold_lock: bool,
    pub level: u32,
    pub lines_total: u32,
    pub lines_since_level: u32,
    /// Units per tick that the piece falls without soft drop.
    pub gravity: u64,
    /// Units fallen that are not yet a whole row.
    pub movement: u64,
    pub lock_ticks: u32,
    pub lock_tries: u32,
    /// Units of auto-repeat that are not yet a whole column.
    pub das_movement: u64,
    pub das_ticks: u32,
    pub left_held: bool,
    pub right_held: bool,
    pub held_direction: HeldDirection,
    pub drop_held: bool,
    /// Rows found full that are still to be removed, lowest first.
    pub pending: Seq<u32>,
    pub rules: Ruleset,
}

/// Whether a row mask and the colours of the row agree: the wall is set,
/// and a column is set exactly where the colour is not the background.
pub open spec fn row_ok(row: u16, colors: Seq<Rgb>) -> bool {
    &&& row & EMPTY_ROW == EMPTY_ROW
    &&& colors.len() == FIELD_COLUMNS
    &&& forall|c: int|
        0 <= c < FIELD_COLUMNS ==> (has_cell(row, c as u16) <==> #[trigger] colors[c]
            != background())
}

/// Whether masks and colours are a playfield: 40 rows that agree.
pub open spec fn board_ok(rows: Seq<u16>, colors: Seq<Seq<Rgb>>) -> bool {
    &&& rows.len() == FIELD_ROWS
    &&& colors.len() == FIELD_ROWS
    &&& forall|r: int|
        #![trigger rows[r]]
        #![trigger colors[r]]
        0 <= r < FIELD_ROWS ==> row_ok(rows[r], colors[r])
}

/// Whether the rows above the visible rows hold nothing.
pub open spec fn hidden_rows_empty(rows: Seq<u16>) -> bool {
    forall|r: int| LOCK_OUT_ROW <= r < FIELD_ROWS ==> #[trigger] rows[r] == EMPTY_ROW
}

/// Whether `pending` is a buffer of rows to remove: at most four rows of
/// the field, each one full, in ascending order.
pub open spec fn pending_ok(rows: Seq<u16>, pending: Seq<u32>) -> bool {
    &&& pending.len() <= MAX_CLEARS
    &&& forall|i: int|
        0 <= i < pending.len() ==> (#[trigger] pending[i]) < FIELD_ROWS && rows[pending[i] as int]
            == FULL_ROW
    &&& forall|i: int, j: int| 0 <= i < j < pending.len() ==> pending[i] < pending[j]
}

/// The row mask that `piece` adds to row `r` of the field: one of its four
/// rows inside its box, nothing outside.
pub open spec fn piece_row(piece: CurrentPiece, r: int) -> u16 {
    if piece.y <= r < piece.y + 4 {
        piece.rows()[r - piece.y]
    } else {
        0u16
    }
}

/// The row masks with the cells of `piece` set.
pub open spec fn with_piece(rows: Seq<u16>, piece: CurrentPiece) -> Seq<u16> {
    Seq::new(rows.len(), |r: int| rows[r] | piece_row(piece, r))
}

/// The colours of a row with `rgb` in the columns that `mask` sets.
pub open spec fn painted_row(colors: Seq<Rgb>, mask: u16, rgb: Rgb) -> Seq<Rgb> {
    Seq::new(
        colors.len(),
        |c: int|
            if has_cell(mask, c as u16) {
                rgb
            } else {
                colors[c]
            },
    )
}

/// The colours with the cells of `piece` in the colour of its kind.
pub open spec fn painted(colors: Seq<Seq<Rgb>>, piece: CurrentPiece) -> Seq<Seq<Rgb>> {
    Seq::new(
        colors.len(),
        |r: int| painted_row(colors[r], piece_row(piece, r), piece.piece.rgb()),
    )
}

/// `grid` without row `at`: the rows above it move down by one, and `blank`
/// becomes the top row.
pub open spec fn without_row<T>(grid: Seq<T>, at: int, blank: T) -> Seq<T> {
    grid.remove(at).push(blank)
}

/// `grid` without the rows `gone`, removed one by one from the highest
/// down, so that the rows still to go keep their place.
pub open spec fn without_rows<T>(grid: Seq<T>, gone: Seq<u32>, blank: T) -> Seq<T>
    decreases gone.len(),
{
    if gone.len() == 0 {
        grid
    } else {
        without_rows(without_row(grid, gone.last() as int, blank), gone.drop_last(), blank)
    }
}

/// Number of the ten columns that are set in `row`.
pub open spec fn playable_cells(row: u16) -> int {
    cell(row, 0) + cell(row, 1) + cell(row, 2) + cell(row, 3) + cell(row, 4) + cell(row, 5) + cell(
        row,
        6,
    ) + cell(row, 7) + cell(row, 8) + cell(row, 9)
}

/// Number of cells that are set in `rows`, the wall not counted.
pub open spec fn cells_in(rows: Seq<u16>) -> int
    decreases rows.len(),
{
    if rows.len() == 0 {
        0
    } else {
        cells_in(rows.drop_last()) + playable_cells(rows.last())
    }
}

/// Whether row `r` is among `gone`.
pub open spec fn is_gone(gone: Seq<u32>, r: int) -> bool {
    exists|i: int| 0 <= i < gone.len() && gone[i] == r
}

/// Number of rows among `gone` that lie below row `r`.
pub open spec fn gone_below(gone: Seq<u32>, r: int) -> nat
    decreases gone.len(),
{
    if gone.len() == 0 {
        0
    } else if gone.last() < r {
        gone_below(gone.drop_last(), r) + 1
    } else {
        gone_below(gone.drop_last(), r)
    }
}

/// The colours of a row that holds nothing.
pub open spec fn blank_colors() -> Seq<Rgb> {
    Seq::new(FIELD_COLUMNS as nat, |c: int| background())
}

/// The row masks of a field that holds nothing.
pub open spec fn empty_rows() -> Seq<u16> {
    Seq::new(FIELD_ROWS as nat, |r: int| EMPTY_ROW)
}

/// The first full rows of `rows` from row `from` upwards, at most `room` of
/// them, in ascending order.
pub open spec fn full_rows_from(rows: Seq<u16>, from: int, room: nat) -> Seq<u32>
    decreases rows.len() - from,
{
    if from < 0 || from >= rows.len() || room == 0 {
        Seq::empty()
    } else if rows[from] == FULL_ROW {
        seq![from as u32] + full_rows_from(rows, from + 1, (room - 1) as nat)
    } else {
        full_rows_from(rows, from + 1, room)
    }
}

/// The lowest row that `piece` reaches from row `y` by moving down one row
/// at a time for as long as the row below is free for it.
pub open spec fn landing_row(piece: CurrentPiece, rows: Seq<u16>, y: u32) -> u32
    decreases y,
{
    if y == 0 || piece.at_row((y - 1) as u32).collides_with(rows) {
        y
    } else {
        landing_row(piece, rows, (y - 1) as u32)
    }
}

/// Where `piece` lands: the piece in the lowest row that it reaches by
/// moving straight down. A piece that does not fit where it is stays there.
pub open spec fn landing(piece: CurrentPiece, rows: Seq<u16>) -> CurrentPiece {
    if piece.collides_with(rows) {
        piece
    } else {
        piece.at_row(landing_row(piece, rows, piece.y))
    }
}

/// `piece` after one try to move down a row: a row lower if it fits there.
pub open spec fn step_down(piece: CurrentPiece, rows: Seq<u16>) -> CurrentPiece {
    if piece.y > 0 && !piece.at_row((piece.y - 1) as u32).collides_with(rows) {
        piece.at_row((piece.y - 1) as u32)
    } else {
        piece
    }
}

/// `piece` after `steps` tries to move down a row.
pub open spec fn fall(piece: CurrentPiece, rows: Seq<u16>, steps: nat) -> CurrentPiece
    decreases steps,
{
    if steps == 0 {
        piece
    } else {
        fall(step_down(piece, rows), rows, (steps - 1) as nat)
    }
}

/// `a + b`, held at the largest value of the type.
pub open spec fn capped_sum(a: u32, b: u32) -> u32 {
    if a + b > u32::MAX {
        u32::MAX
    } else {
        (a + b) as u32
    }
}

impl GameState {
    /// What holds of every state that a game reaches.
    pub open spec fn wf(self) -> bool {
        &&& board_ok(self.rows, self.colors)
        &&& self.next.len() == PREVIEW
        &&& self.current.y < FIELD_ROWS - 4
        &&& self.ghost_piece.y < FIELD_ROWS - 4
        &&& self.ghost_piece == self.current.at_row(self.ghost_piece.y)
        &&& pending_ok(self.rows, self.pending)
        &&& self.rules.valid()
        &&& self.running ==> self.lock_ticks < self.rules.lock_delay
        &&& self.running ==> hidden_rows_empty(self.rows)
        &&& self.running ==> self.ghost_piece == landing(self.current, self.rows)
        &&& self.lock_tries <= self.rules.lock_resets
        &&& self.das_ticks <= self.rules.das_delay
        &&& self.movement < ROW_UNITS
        &&& self.das_movement < ROW_UNITS
        &&& self.gravity == gravity_curve(self.level as nat)
    }

    /// Whether the falling piece fits where it is, as far as that matters:
    /// once the game has ended, the piece that ended it may lie on set
    /// cells.
    pub open spec fn piece_fits(self) -> bool {
        self.running ==> !self.current.collides_with(self.rows)
    }

    /// The state in which a game starts: an empty field, `first` as the
    /// falling piece and `next` as the preview queue.
    pub open spec fn initial(first: Piece, next: Seq<Piece>) -> GameState {
        (GameState {
            running: true,
            current: first.spawned(),
            ghost_piece: first.spawned(),
            next,
            rows: empty_rows(),
            colors: Seq::new(FIELD_ROWS as nat, |r: int| blank_colors()),
            held: None,
            hold_lock: false,
            level: 0,
            lines_total: 0,
            lines_since_level: 0,
            gravity: gravity_curve(0) as u64,
            movement: 0,
            lock_ticks: 0,
            lock_tries: 0,
            das_movement: 0,
            das_ticks: 0,
            left_held: false,
            right_held: false,
            held_direction: HeldDirection::Neither,
            drop_held: false,
            pending: Seq::empty(),
            rules: Ruleset::standard(),
        }).with_ghost()
    }

    /// The state with the ghost where the falling piece lands now.
    pub open spec fn with_ghost(self) -> GameState {
        GameState { ghost_piece: landing(self.current, self.rows), ..self }
    }

    /// The state after a move has asked for the lock delay to start anew.
    /// The delay starts anew only if it has begun to run and the piece has
    /// resets left; each new start uses up one reset.
    pub open spec fn with_lock_reset(self) -> GameState {
        if self.lock_ticks > 0 && self.lock_tries < self.rules.lock_resets {
            GameState { lock_tries: (self.lock_tries + 1) as u32, lock_ticks: 0, ..self }
        } else {
            self
        }
    }

    /// The state after the falling piece has been moved or turned to
    /// `placed`.
    pub open spec fn moved_to(self, placed: CurrentPiece) -> GameState {
        (GameState { current: placed, ..self }).with_lock_reset().with_ghost()
    }

    /// One column to the left, if the piece fits there.
    pub open spec fn shift_left(self) -> GameState {
        let target = self.current.at_column((self.current.x - 1) as u32);
        if self.current.x > 0 && !target.collides_with(self.rows) {
            self.moved_to(target)
        } else {
            self
        }
    }

    /// One column to the right, if the piece fits there.
    pub open spec fn shift_right(self) -> GameState {
        let target = self.current.at_column((self.current.x + 1) as u32);
        if self.current.x < FIELD_COLUMNS && !target.collides_with(self.rows) {
            self.moved_to(target)
        } else {
            self
        }
    }

    /// One column in the held direction.
    pub open spec fn shift_held(self) -> GameState {
        match self.held_direction {
            HeldDirection::Neither => self,
            HeldDirection::Left => self.shift_left(),
            HeldDirection::Right => self.shift_right(),
        }
    }

    /// `steps` columns in the held direction, one at a time.
    pub open spec fn shift_held_by(self, steps: nat) -> GameState
        decreases steps,
    {
        if steps == 0 {
            self
        } else {
            self.shift_held().shift_held_by((steps - 1) as nat)
        }
    }

    pub open spec fn after_move_left(self) -> GameState {
        if self.running {
            self.shift_left()
        } else {
            self
        }
    }

    pub open spec fn after_move_right(self) -> GameState {
        if self.running {
            self.shift_right()
        } else {
            self
        }
    }

    /// The state after the rotation system has answered `turned` to a
    /// request to turn the falling piece.
    pub open spec fn after_rotation(self, turned: Option<CurrentPiece>) -> GameState {
        match turned {
            Some(placed) if self.running => self.moved_to(placed),
            _ => self,
        }
    }

    pub open spec fn after_set_drop(self, held: bool) -> GameState {
        if self.running {
            GameState { drop_held: held, ..self }
        } else {
            self
        }
    }

    /// The state after the left key is reported down (`held`) or up. Only a
    /// change counts: a key that goes down moves the piece once at once and
    /// becomes the held direction; a key that goes up hands over to the
    /// other key if that is down. Either way the auto-repeat starts anew.
    pub open spec fn after_set_left(self, held: bool) -> GameState {
        if self.running && held != self.left_held {
            let moved = if held {
                self.shift_left()
            } else {
                self
            };
            GameState {
                das_ticks: 0,
                das_movement: 0,
                left_held: held,
                held_direction: if held {
                    HeldDirection::Left
                } else if self.right_held {
                    HeldDirection::Right
                } else {
                    HeldDirection::Neither
                },
                ..moved
            }
        } else {
            self
        }
    }

    /// As `after_set_left`, for the right key.
    pub open spec fn after_set_right(self, held: bool) -> GameState {
        if self.running && held != self.right_held {
            let moved = if held {
                self.shift_right()
            } else {
                self
            };
            GameState {
                das_ticks: 0,
                das_movement: 0,
                right_held: held,
                held_direction: if held {
                    HeldDirection::Right
                } else if self.left_held {
                    HeldDirection::Left
                } else {
                    HeldDirection::Neither
                },
                ..moved
            }
        } else {
            self
        }
    }

    /// The state with a fresh piece of kind `piece` as the falling piece.
    /// The game ends if the piece does not fit where it appears. In the
    /// states that a game reaches this does not happen while the game goes
    /// on: the rows in which pieces appear hold nothing then.
    pub open spec fn with_new_piece(self, piece: Piece) -> GameState {
        (GameState {
            current: piece.spawned(),
            running: self.running && !piece.spawned().collides_with(self.rows),
            movement: 0,
            lock_ticks: 0,
            lock_tries: 0,
            ..self
        }).with_ghost()
    }

    /// The state after the first piece of the preview queue has been taken
    /// and `drawn` has joined the queue at its end.
    pub open spec fn with_next_taken(self, drawn: Piece) -> GameState {
        GameState { next: self.next.drop_first().push(drawn), ..self }
    }

    /// The state after a hold, where `drawn` is the piece that the
    /// randomizer deals if one is needed. A hold does nothing while the
    /// hold lock is set. Otherwise the held piece, or the next piece if
    /// none is held, becomes the falling piece, the kind that fell is held,
    /// and the hold lock is set.
    pub open spec fn after_hold(self, drawn: Piece) -> GameState {
        if self.running && !self.hold_lock {
            let kept = GameState { held: Some(self.current.piece), ..self };
            let swapped = match self.held {
                Some(piece) => kept.with_new_piece(piece),
                None => kept.with_next_taken(drawn).with_new_piece(self.next[0]),
            };
            GameState { hold_lock: true, ..swapped }
        } else {
            self
        }
    }

    /// The state after `piece` has been locked, where `drawn` is the piece
    /// that the randomizer deals if one is needed. The cells of the piece
    /// join the field. A piece whose highest cell is above the visible
    /// rows, in row `LOCK_OUT_ROW` or higher, ends the game: nothing else
    /// changes then, and no piece is taken from the queue. Otherwise the
    /// next piece of the queue becomes the falling piece and the hold lock
    /// is cleared.
    pub open spec fn locked(self, piece: CurrentPiece, drawn: Piece) -> GameState {
        let set = GameState {
            rows: with_piece(self.rows, piece),
            colors: painted(self.colors, piece),
            ..self
        };
        if piece.top_row() >= LOCK_OUT_ROW {
            GameState { running: false, ..set }
        } else {
            GameState {
                hold_lock: false,
                ..set.with_next_taken(drawn).with_new_piece(self.next[0])
            }
        }
    }

    /// Whether a hold asks the randomizer for a piece: it does when it
    /// takes the next piece from the queue, which then needs one more.
    pub open spec fn hold_draws(self) -> bool {
        self.running && !self.hold_lock && self.held is None
    }

    /// Whether a hard drop asks the randomizer for a piece: it does unless
    /// the lock ends the game.
    pub open spec fn hard_drop_draws(self) -> bool {
        self.running && self.ghost_piece.top_row() < LOCK_OUT_ROW
    }

    pub open spec fn after_hard_drop(self, drawn: Piece) -> GameState {
        if self.running {
            self.locked(self.ghost_piece, drawn)
        } else {
            self
        }
    }

    /// The first phase of a tick in which rows are pending: the rows are
    /// removed, the lines are counted, a level that is reached sets the
    /// fall anew, and the ghost is put where the piece lands on the rows
    /// that are left.
    pub open spec fn cleared(self) -> GameState {
        let lines = self.pending.len() as u32;
        let counted = capped_sum(self.lines_since_level, lines);
        let levelled = counted >= self.rules.lines_for_level(self.level);
        let level = if levelled {
            capped_sum(self.level, 1)
        } else {
            self.level
        };
        (GameState {
            rows: without_rows(self.rows, self.pending, EMPTY_ROW),
            colors: without_rows(self.colors, self.pending, blank_colors()),
            pending: Seq::empty(),
            lines_total: capped_sum(self.lines_total, lines),
            lines_since_level: if levelled {
                0
            } else {
                counted
            },
            level,
            gravity: gravity_curve(level as nat) as u64,
            ..self
        }).with_ghost()
    }

    /// Units that the piece falls in this tick.
    pub open spec fn fall_per_tick(self) -> int {
        if self.drop_held {
            self.gravity * self.rules.drop_gravity_multiplier
        } else {
            self.gravity as int
        }
    }

    /// The fall of a tick: the units of the tick are added to those left
    /// over, and the piece tries to move down once for each whole row. The
    /// ghost is where the piece lands from its new row; for a piece that
    /// fits where it is, that is where it was (`lemma_fall_keeps_the_ghost`).
    pub open spec fn fallen(self) -> GameState {
        let units = self.movement + self.fall_per_tick();
        (GameState {
            movement: (units % ROW_UNITS as int) as u64,
            current: fall(self.current, self.rows, (units / ROW_UNITS as int) as nat),
            ..self
        }).with_ghost()
    }

    /// The auto-repeat of a tick. While a direction is held, the ticks are
    /// counted up to the delay; after that the repeat units of each tick
    /// are added to those left over, and the piece tries to move one column
    /// for each whole column.
    pub open spec fn auto_shifted(self) -> GameState {
        if self.held_direction == HeldDirection::Neither {
            self
        } else if self.das_ticks < self.rules.das_delay {
            GameState { das_ticks: (self.das_ticks + 1) as u32, ..self }
        } else {
            let units = self.das_movement + self.rules.das_gravity;
            (GameState { das_movement: (units % ROW_UNITS as int) as u64, ..self }).shift_held_by(
                (units / ROW_UNITS as int) as nat,
            )
        }
    }

    /// Whether the lock delay runs out in this tick.
    pub open spec fn lock_is_due(self) -> bool {
        if self.ghost_piece.y == self.current.y {
            self.lock_ticks + 1 >= self.rules.lock_delay
        } else {
            self.lock_ticks >= self.rules.lock_delay
        }
    }

    /// Whether the lock delay of this tick asks the randomizer for a piece:
    /// it does when it locks the piece and the lock does not end the game.
    pub open spec fn lock_draws(self) -> bool {
        self.lock_is_due() && self.current.top_row() < LOCK_OUT_ROW
    }

    /// The lock delay of a tick, where `drawn` is the piece that the
    /// randomizer deals if one is needed. A tick in which the piece is in
    /// the row of its ghost counts; when the count reaches the delay, the
    /// piece is locked where it is.
    pub open spec fn lock_ticked(self, drawn: Piece) -> GameState {
        let counted = if self.ghost_piece.y == self.current.y {
            GameState { lock_ticks: (self.lock_ticks + 1) as u32, ..self }
        } else {
            self
        };
        if counted.lock_ticks >= counted.rules.lock_delay {
            counted.locked(counted.current, drawn)
        } else {
            counted
        }
    }

    /// The last phase of a tick: the full rows, at most four and the lowest
    /// first, are noted for removal.
    pub open spec fn scanned(self) -> GameState {
        GameState { pending: full_rows_from(self.rows, 0, MAX_CLEARS as nat), ..self }
    }

    /// Whether a tick asks the randomizer for a piece: it does when it
    /// locks the piece and the lock does not end the game.
    pub open spec fn update_draws(self) -> bool {
        &&& self.running
        &&& self.pending.len() == 0
        &&& self.fallen().auto_shifted().lock_draws()
    }

    /// The state after one tick, where `drawn` is the piece that the
    /// randomizer deals if one is needed. A game that has ended stays as it
    /// is. A tick that finds rows pending removes them and does nothing
    /// else. Any other tick lets the piece fall, repeats a held direction,
    /// counts the lock delay and locks the piece if it has run out, and
    /// notes the rows that are full.
    pub open spec fn after_update(self, drawn: Piece) -> GameState {
        if !self.running {
            self
        } else if self.pending.len() > 0 {
            self.cleared()
        } else {
            self.fallen().auto_shifted().lock_ticked(drawn).scanned()
        }
    }
}

} // verus!
