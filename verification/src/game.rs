//! The engine: the state of one game in arrays and counters, the requests
//! of the player, and the tick.
//!
//! The engine neither draws nor reads keys. A host calls the requests when
//! the player acts and `update` once per tick, and reads the state back
//! through the accessors. What each operation does is stated over the view
//! of the engine, a `GameState`, by the functions of the `state` module.

use vstd::prelude::*;
use crate::gravity::{gravity_for_level, ROW_UNITS};
use crate::laws::{
    delay_runs_out_at_rest, lemma_clear_takes_ten_cells_a_row, lemma_cleared_rows,
    lemma_grounded_piece_locks_when_the_delay_runs_out, lemma_initial_wf, lemma_intents_keep_wf,
    lemma_landing_is_below, lemma_lock_takes_the_next_piece, lemma_locked_keeps_wf,
    lemma_rotation_keeps_wf, lemma_update_keeps_wf, moved, restarted,
};
use crate::piece::{CurrentPiece, Piece, PlayfieldMask};
use crate::playfield::{
    find_full_rows, grid_view, landing_place, remove_row, set_piece, take_next, PlayfieldColors,
};
use crate::random::Randomizer;
use crate::rotate::Rotate;
use crate::state::{
    blank_colors, cells_in, fall, landing, painted, with_piece, without_rows, GameState,
    HeldDirection, Ruleset, EMPTY_ROW, LOCK_OUT_ROW,
};

verus! {

/// A game, played with the randomizer `RNG` and the rotation system `ROT`.
#[derive(Debug, Clone)]
pub struct Game<RNG, ROT> where RNG: Randomizer, ROT: Rotate {
    game_ended: bool,
    current_piece: CurrentPiece,
    ghost_piece: CurrentPiece,
    next_pieces: [Piece; 6],
    playfield_mask: PlayfieldMask,
    playfield_colors: PlayfieldColors,
    randomizer: RNG,
    rotation: ROT,
    ruleset: Ruleset,
    held_piece: Option<Piece>,
    hold_lock: bool,
    level: u32,
    line_clear_total: u32,
    line_clear_count: u32,
    gravity: u64,
    movement: u64,
    lock_ticks: u32,
    lock_tries: u32,
    das_movement: u64,
    das_ticks: u32,
    left_held: bool,
    right_held: bool,
    held_direction: HeldDirection,
    drop_held: bool,
    line_clear_rows: [u32; 4],
    line_clear_len: usize,
}

impl<RNG: Randomizer, ROT: Rotate> View for Game<RNG, ROT> {
    type V = GameState;

    closed spec fn view(&self) -> GameState {
        GameState {
            running: !self.game_ended,
            current: self.current_piece,
            ghost_piece: self.ghost_piece,
            next: self.next_pieces@,
            rows: self.playfield_mask@,
            colors: grid_view(self.playfield_colors),
            held: self.held_piece,
            hold_lock: self.hold_lock,
            level: self.level,
            lines_total: self.line_clear_total,
            lines_since_level: self.line_clear_count,
            gravity: self.gravity,
            movement: self.movement,
            lock_ticks: self.lock_ticks,
            lock_tries: self.lock_tries,
            das_movement: self.das_movement,
            das_ticks: self.das_ticks,
            left_held: self.left_held,
            right_held: self.right_held,
            held_direction: self.held_direction,
            drop_held: self.drop_held,
            pending: self.line_clear_rows@.subrange(0, self.line_clear_len as int),
            rules: self.ruleset,
        }
    }
}

impl<RNG: Randomizer, ROT: Rotate> Game<RNG, ROT> {
    /// Whether the engine is in a state that a game reaches. `new`
    /// establishes this and every operation keeps it.
    pub closed spec fn wf(&self) -> bool {
        self.line_clear_len <= 4 && self@.wf()
    }

    /// The state of a well-formed engine is a well-formed state.
    pub proof fn lemma_wf_state(&self)
        requires
            self.wf(),
        ensures
            self@.wf(),
    {
    }

    /// Whether the parts of the engine that no state shows are those of
    /// `before`: the rotation system, and the buffer of pending rows beyond
    /// its length.
    pub closed spec fn same_frame(&self, before: &Self) -> bool {
        &&& self.line_clear_rows == before.line_clear_rows
        &&& self.line_clear_len == before.line_clear_len
        &&& self.rotation == before.rotation
    }

    /// The rotation system that the game is played with.
    pub closed spec fn rotation_system(&self) -> ROT {
        self.rotation
    }

    /// The randomizer that the game draws its pieces from.
    pub closed spec fn randomizer(&self) -> RNG {
        self.randomizer
    }

    /// The playfield as the array that is handed to the rotation system.
    pub closed spec fn field(&self) -> PlayfieldMask {
        self.playfield_mask
    }

    /// The array that is handed to the rotation system holds the row masks
    /// of the state.
    pub proof fn lemma_field_is_rows(&self)
        ensures
            self.field()@ == self@.rows,
    {
    }

    /// A game on an empty field. The first piece that the randomizer deals
    /// falls; the six that follow fill the preview queue.
    pub fn new(rng: RNG, rot: ROT) -> (g: Game<RNG, ROT>)
        ensures
            g.wf(),
            g@ == GameState::initial(g@.current.piece, g@.next),
            g.rotation_system() == rot,
            exists|
                r0: &mut RNG,
                r1: &mut RNG,
                r2: &mut RNG,
                r3: &mut RNG,
                r4: &mut RNG,
                r5: &mut RNG,
                r6: &mut RNG,
            |
                #![trigger
                    call_ensures(RNG::get_next_piece, (r0,), g@.current.piece),
                    call_ensures(RNG::get_next_piece, (r1,), g@.next[0]),
                    call_ensures(RNG::get_next_piece, (r2,), g@.next[1]),
                    call_ensures(RNG::get_next_piece, (r3,), g@.next[2]),
                    call_ensures(RNG::get_next_piece, (r4,), g@.next[3]),
                    call_ensures(RNG::get_next_piece, (r5,), g@.next[4]),
                    call_ensures(RNG::get_next_piece, (r6,), g@.next[5]),
                ]
                {
                    &&& mut_ref_current(r0) == rng
                    &&& mut_ref_current(r1) == mut_ref_future(r0)
                    &&& mut_ref_current(r2) == mut_ref_future(r1)
                    &&& mut_ref_current(r3) == mut_ref_future(r2)
                    &&& mut_ref_current(r4) == mut_ref_future(r3)
                    &&& mut_ref_current(r5) == mut_ref_future(r4)
                    &&& mut_ref_current(r6) == mut_ref_future(r5)
                    &&& g.randomizer() == mut_ref_future(r6)
                    &&& call_ensures(RNG::get_next_piece, (r0,), g@.current.piece)
                    &&& call_ensures(RNG::get_next_piece, (r1,), g@.next[0])
                    &&& call_ensures(RNG::get_next_piece, (r2,), g@.next[1])
                    &&& call_ensures(RNG::get_next_piece, (r3,), g@.next[2])
                    &&& call_ensures(RNG::get_next_piece, (r4,), g@.next[3])
                    &&& call_ensures(RNG::get_next_piece, (r5,), g@.next[4])
                    &&& call_ensures(RNG::get_next_piece, (r6,), g@.next[5])
                },
    {
        let mut rng = rng;
        let piece = rng.get_next_piece().spawn();
        let next_pieces = [
            rng.get_next_piece(),
            rng.get_next_piece(),
            rng.get_next_piece(),
            rng.get_next_piece(),
            rng.get_next_piece(),
            rng.get_next_piece(),
        ];
        let mut g = Game {
            game_ended: false,
            current_piece: piece,
            ghost_piece: piece,
            next_pieces,
            // Outside the playfield, from column 10 on, every row is set.
            playfield_mask: [0xFC00; 40],
            playfield_colors: [[(0, 0, 0); 10]; 40],
            randomizer: rng,
            rotation: rot,
            ruleset: Ruleset {
                // 300 ms (18 ticks at 60 ticks a second)
                das_delay: 18,
                // 1 column in 2 ticks
                das_gravity: ROW_UNITS / 2,
                // 20 times the fall
                drop_gravity_multiplier: 20,
                // 1 s (60 ticks at 60 ticks a second)
                lock_delay: 60,
                // 25 moves that restart the lock delay
                lock_resets: 25,
                // 10 and 0 for a fixed goal, 5 and 5 for a growing one
                line_clear_constant: 10,
                line_clear_coeff: 0,
            },
            held_piece: None,
            hold_lock: false,
            gravity: 0,
            level: 0,
            line_clear_total: 0,
            line_clear_count: 0,
            movement: 0,
            lock_ticks: 0,
            lock_tries: 0,
            held_direction: HeldDirection::Neither,
            left_held: false,
            right_held: false,
            drop_held: false,
            das_movement: 0,
            das_ticks: 0,
            line_clear_rows: [0, 0, 0, 0],
            line_clear_len: 0,
        };
        g.update_ghost();
        g.update_gravity();
        proof {
            lemma_initial_wf(piece.piece, g@.next);
            let s = GameState::initial(g@.current.piece, g@.next);
            assert(g@.rows =~= s.rows);
            assert(g@.colors =~~= s.colors);
            assert(g@.pending =~= s.pending);
        }
        g
    }

    /// Whether the game goes on.
    pub fn running(&self) -> (r: bool)
        ensures
            r == self@.running,
    {
        !self.game_ended
    }

    /// The piece that falls.
    pub fn current_piece(&self) -> (p: &CurrentPiece)
        ensures
            *p == self@.current,
    {
        &self.current_piece
    }

    /// The ghost: the falling piece where it lands if it is dropped now.
    pub fn ghost_piece(&self) -> (p: &CurrentPiece)
        ensures
            *p == self@.ghost_piece,
            self.wf() && self@.running ==> *p == landing(self@.current, self@.rows),
    {
        &self.ghost_piece
    }

    /// The kind that is held, if any.
    pub fn held_piece(&self) -> (p: Option<Piece>)
        ensures
            p == self@.held,
    {
        self.held_piece
    }

    /// The preview queue, next piece first.
    pub fn next_pieces(&self) -> (n: [Piece; 6])
        ensures
            n@ == self@.next,
    {
        self.next_pieces
    }

    /// The colour of every cell, by row from the lowest and by column.
    pub fn board(&self) -> (b: &PlayfieldColors)
        ensures
            grid_view(*b) == self@.colors,
    {
        &self.playfield_colors
    }

    fn update_gravity(&mut self)
        ensures
            final(self)@ == (GameState {
                gravity: crate::gravity::gravity_curve(old(self)@.level as nat) as u64,
                ..old(self)@
            }),
            final(self).same_frame(old(self)),
            final(self).randomizer() == old(self).randomizer(),
    {
        self.gravity = gravity_for_level(self.level);
    }

    /// Puts the ghost where the falling piece lands now. In a game that
    /// goes on the ghost is there already, and nothing changes.
    pub fn update_ghost(&mut self)
        ensures
            final(self)@ == old(self)@.with_ghost(),
            final(self)@.ghost_piece == landing(old(self)@.current, old(self)@.rows),
            final(self).same_frame(old(self)),
            final(self).rotation_system() == old(self).rotation_system(),
            final(self).randomizer() == old(self).randomizer(),
            old(self).wf() ==> final(self).wf(),
            old(self).wf() && old(self)@.running ==> final(self)@ == old(self)@,
    {
        self.ghost_piece = landing_place(&self.current_piece, &self.playfield_mask);
        proof {
            lemma_landing_is_below(old(self)@.current, old(self)@.rows);
        }
    }

    /// Starts the lock delay anew if the reset budget allows: if the count
    /// of the delay is above zero and resets are left, the count becomes
    /// zero and one more reset is used; otherwise nothing changes.
    pub fn reset_lock(&mut self)
        ensures
            final(self)@ == old(self)@.with_lock_reset(),
            restarted(old(self)@, final(self)@),
            final(self).same_frame(old(self)),
            final(self).rotation_system() == old(self).rotation_system(),
            final(self).randomizer() == old(self).randomizer(),
            old(self).wf() ==> final(self).wf(),
    {
        if self.lock_ticks > 0 && self.lock_tries < self.ruleset.lock_resets {
            self.lock_tries += 1;
            self.lock_ticks = 0;
        }
    }

    fn new_piece(&mut self, piece: Piece)
        ensures
            final(self)@ == old(self)@.with_new_piece(piece),
            final(self).same_frame(old(self)),
            final(self).randomizer() == old(self).randomizer(),
    {
        self.current_piece = piece.spawn();
        if self.current_piece.collides(&self.playfield_mask) {
            // Block out
            self.game_ended = true;
        }
        self.movement = 0;
        self.lock_ticks = 0;
        self.lock_tries = 0;
        self.update_ghost();
    }

    fn get_next_piece(&mut self) -> (p: Piece)
        ensures
            p == old(self)@.next[0],
            final(self)@ == old(self)@.with_next_taken(final(self)@.next[5]),
            final(self).same_frame(old(self)),
            exists|r: &mut RNG|
                #![trigger call_ensures(RNG::get_next_piece, (r,), final(self)@.next[5])]
                {
                    &&& mut_ref_current(r) == old(self).randomizer()
                    &&& mut_ref_future(r) == final(self).randomizer()
                    &&& call_ensures(RNG::get_next_piece, (r,), final(self)@.next[5])
                },
    {
        let drawn = self.randomizer.get_next_piece();
        take_next(&mut self.next_pieces, drawn)
    }

    /// Locks `piece`, whose box has to lie inside the field. The cells of
    /// the piece are set and painted. A piece with a cell above the visible
    /// rows ends the game, and nothing else changes. Otherwise the first
    /// piece of the queue falls next, fresh where it appears; the queue
    /// moves up and the piece that the randomizer deals joins it at the end;
    /// the counters of the piece start from nothing and the hold lock is
    /// cleared.
    pub fn lock_piece(&mut self, piece: &CurrentPiece)
        requires
            piece.y < 36,
        ensures
            final(self)@ == old(self)@.locked(*piece, final(self)@.next[5]),
            final(self).same_frame(old(self)),
            final(self).rotation_system() == old(self).rotation_system(),
            old(self).wf() ==> final(self).wf(),
            final(self)@.rows == with_piece(old(self)@.rows, *piece),
            final(self)@.colors == painted(old(self)@.colors, *piece),
            piece.top_row() >= LOCK_OUT_ROW ==> {
                &&& !final(self)@.running
                &&& final(self)@.current == old(self)@.current
                &&& final(self)@.next == old(self)@.next
            },
            old(self).wf() && old(self)@.running && piece.top_row() < LOCK_OUT_ROW ==> {
                &&& final(self)@.running
                &&& final(self)@.current == old(self)@.next[0].spawned()
                &&& final(self)@.ghost_piece == landing(final(self)@.current, final(self)@.rows)
                &&& forall|i: int| 0 <= i < 5 ==> final(self)@.next[i] == old(self)@.next[i + 1]
                &&& !final(self)@.hold_lock
                &&& final(self)@.movement == 0
                &&& final(self)@.lock_ticks == 0
                &&& final(self)@.lock_tries == 0
            },
            piece.top_row() < LOCK_OUT_ROW ==> exists|r: &mut RNG|
                #![trigger call_ensures(RNG::get_next_piece, (r,), final(self)@.next[5])]
                {
                    &&& mut_ref_current(r) == old(self).randomizer()
                    &&& mut_ref_future(r) == final(self).randomizer()
                    &&& call_ensures(RNG::get_next_piece, (r,), final(self)@.next[5])
                },
            piece.top_row() >= LOCK_OUT_ROW ==> final(self).randomizer() == old(self).randomizer(),
    {
        set_piece(&mut self.playfield_mask, &mut self.playfield_colors, piece);
        if piece.y + piece.height() - 1 >= LOCK_OUT_ROW {
            // Lock out
            self.game_ended = true;
        } else {
            let next = self.get_next_piece();
            self.new_piece(next);
            self.hold_lock = false;
        }
        proof {
            if old(self).wf() {
                lemma_locked_keeps_wf(old(self)@, *piece, self@.next[5]);
                if old(self)@.running && piece.top_row() < LOCK_OUT_ROW {
                    lemma_lock_takes_the_next_piece(old(self)@, *piece, self@.next[5]);
                }
            }
        }
    }

    fn shift_left(&mut self)
        ensures
            final(self)@ == old(self)@.shift_left(),
            final(self).same_frame(old(self)),
            final(self).randomizer() == old(self).randomizer(),
    {
        if self.current_piece.x > 0 {
            self.current_piece.x -= 1;
            if self.current_piece.collides(&self.playfield_mask) {
                self.current_piece.x += 1;
            } else {
                self.reset_lock();
                self.update_ghost();
            }
        }
    }

    fn shift_right(&mut self)
        ensures
            final(self)@ == old(self)@.shift_right(),
            final(self).same_frame(old(self)),
            final(self).randomizer() == old(self).randomizer(),
    {
        if self.current_piece.x < 10 {
            self.current_piece.x += 1;
            if self.current_piece.collides(&self.playfield_mask) {
                self.current_piece.x -= 1;
            } else {
                self.reset_lock();
                self.update_ghost();
            }
        }
    }

    fn apply_rotation(&mut self, turned: Option<CurrentPiece>)
        ensures
            final(self)@ == old(self)@.after_rotation(turned),
            final(self).same_frame(old(self)),
            final(self).randomizer() == old(self).randomizer(),
    {
        if !self.game_ended {
            if let Some(rot) = turned {
                self.current_piece = rot;
                self.reset_lock();
                self.update_ghost();
            }
        }
    }

    /// Holds the falling piece, unless a hold has been made since the last
    /// lock. The piece that was held, or the next piece of the queue if
    /// none was, falls instead.
    pub fn hold(&mut self)
        requires
            old(self).wf(),
        ensures
            final(self).wf(),
            final(self)@ == old(self)@.after_hold(final(self)@.next[5]),
            final(self).rotation_system() == old(self).rotation_system(),
            old(self)@.hold_draws() ==> exists|r: &mut RNG|
                #![trigger call_ensures(RNG::get_next_piece, (r,), final(self)@.next[5])]
                {
                    &&& mut_ref_current(r) == old(self).randomizer()
                    &&& mut_ref_future(r) == final(self).randomizer()
                    &&& call_ensures(RNG::get_next_piece, (r,), final(self)@.next[5])
                },
            !old(self)@.hold_draws() ==> final(self).randomizer() == old(self).randomizer(),
    {
        if !self.game_ended && !self.hold_lock {
            let new_piece = if let Some(held) = self.held_piece {
                held
            } else {
                self.get_next_piece()
            };
            self.held_piece = Some(self.current_piece.piece);
            self.new_piece(new_piece);
            self.hold_lock = true;
        }
        proof {
            lemma_intents_keep_wf(old(self)@, false, self@.next[5]);
        }
    }

    /// Moves the falling piece one column to the left if it fits there. A
    /// move that succeeds puts the ghost where the piece lands and starts
    /// the lock delay anew if the reset budget allows; one that fails
    /// changes nothing.
    pub fn move_left(&mut self)
        requires
            old(self).wf(),
        ensures
            final(self).wf(),
            final(self)@ == old(self)@.after_move_left(),
            final(self).rotation_system() == old(self).rotation_system(),
            final(self).randomizer() == old(self).randomizer(),
            final(self)@ == old(self)@ || moved(old(self)@, final(self)@),
            final(self)@.current != old(self)@.current ==> moved(old(self)@, final(self)@),
    {
        if !self.game_ended {
            self.shift_left();
        }
        proof {
            lemma_intents_keep_wf(old(self)@, false, Piece::I);
        }
    }

    /// Moves the falling piece one column to the right if it fits there. A
    /// move that succeeds puts the ghost where the piece lands and starts
    /// the lock delay anew if the reset budget allows; one that fails
    /// changes nothing.
    pub fn move_right(&mut self)
        requires
            old(self).wf(),
        ensures
            final(self).wf(),
            final(self)@ == old(self)@.after_move_right(),
            final(self).rotation_system() == old(self).rotation_system(),
            final(self).randomizer() == old(self).randomizer(),
            final(self)@ == old(self)@ || moved(old(self)@, final(self)@),
            final(self)@.current != old(self)@.current ==> moved(old(self)@, final(self)@),
    {
        if !self.game_ended {
            self.shift_right();
        }
        proof {
            lemma_intents_keep_wf(old(self)@, false, Piece::I);
        }
    }

    /// Turns the falling piece counter-clockwise if the rotation system
    /// grants the turn. While the game goes on, the state that results is
    /// `after_rotation` of an answer that the rotation system gives for the
    /// falling piece over the field.
    pub fn rotate_left(&mut self)
        requires
            old(self).wf(),
        ensures
            final(self).wf(),
            final(self).rotation_system() == old(self).rotation_system(),
            final(self).randomizer() == old(self).randomizer(),
            !old(self)@.running ==> final(self)@ == old(self)@,
            old(self)@.running ==> exists|turned: Option<CurrentPiece>|
                #![trigger old(self)@.after_rotation(turned)]
                call_ensures(
                    ROT::rotate_left,
                    (&old(self).rotation_system(), &old(self)@.current, &old(self).field()),
                    turned,
                ) && final(self)@ == old(self)@.after_rotation(turned),
            final(self)@ == old(self)@ || moved(old(self)@, final(self)@),
    {
        if !self.game_ended {
            let turned = self.rotation.rotate_left(&self.current_piece, &self.playfield_mask);
            proof {
                lemma_rotation_keeps_wf(self@, turned);
            }
            self.apply_rotation(turned);
        }
    }

    /// Turns the falling piece clockwise if the rotation system grants the
    /// turn. While the game goes on, the state that results is
    /// `after_rotation` of an answer that the rotation system gives for the
    /// falling piece over the field.
    pub fn rotate_right(&mut self)
        requires
            old(self).wf(),
        ensures
            final(self).wf(),
            final(self).rotation_system() == old(self).rotation_system(),
            final(self).randomizer() == old(self).randomizer(),
            !old(self)@.running ==> final(self)@ == old(self)@,
            old(self)@.running ==> exists|turned: Option<CurrentPiece>|
                #![trigger old(self)@.after_rotation(turned)]
                call_ensures(
                    ROT::rotate_right,
                    (&old(self).rotation_system(), &old(self)@.current, &old(self).field()),
                    turned,
                ) && final(self)@ == old(self)@.after_rotation(turned),
            final(self)@ == old(self)@ || moved(old(self)@, final(self)@),
    {
        if !self.game_ended {
            let turned = self.rotation.rotate_right(&self.current_piece, &self.playfield_mask);
            proof {
                lemma_rotation_keeps_wf(self@, turned);
            }
            self.apply_rotation(turned);
        }
    }

    /// Locks the falling piece at once, in the place of its ghost.
    ///
    /// While the game goes on, the cells of the ghost are set and painted.
    /// If the ghost has a cell above the visible rows, the game ends and
    /// nothing else changes. Otherwise the game goes on with the first
    /// piece of the queue, fresh where it appears; the queue moves up and
    /// the piece that the randomizer deals joins it at the end.
    pub fn hard_drop(&mut self)
        requires
            old(self).wf(),
        ensures
            final(self).wf(),
            final(self)@ == old(self)@.after_hard_drop(final(self)@.next[5]),
            final(self).rotation_system() == old(self).rotation_system(),
            old(self)@.running ==> {
                &&& final(self)@.rows == with_piece(old(self)@.rows, old(self)@.ghost_piece)
                &&& final(self)@.colors == painted(old(self)@.colors, old(self)@.ghost_piece)
            },
            old(self)@.hard_drop_draws() ==> {
                &&& final(self)@.running
                &&& final(self)@.current == old(self)@.next[0].spawned()
                &&& final(self)@.ghost_piece == landing(final(self)@.current, final(self)@.rows)
                &&& forall|i: int| 0 <= i < 5 ==> final(self)@.next[i] == old(self)@.next[i + 1]
                &&& !final(self)@.hold_lock
                &&& final(self)@.movement == 0
                &&& final(self)@.lock_ticks == 0
                &&& final(self)@.lock_tries == 0
            },
            old(self)@.running && !old(self)@.hard_drop_draws() ==> {
                &&& !final(self)@.running
                &&& final(self)@.current == old(self)@.current
                &&& final(self)@.next == old(self)@.next
            },
            old(self)@.hard_drop_draws() ==> exists|r: &mut RNG|
                #![trigger call_ensures(RNG::get_next_piece, (r,), final(self)@.next[5])]
                {
                    &&& mut_ref_current(r) == old(self).randomizer()
                    &&& mut_ref_future(r) == final(self).randomizer()
                    &&& call_ensures(RNG::get_next_piece, (r,), final(self)@.next[5])
                },
            !old(self)@.hard_drop_draws() ==> final(self).randomizer() == old(self).randomizer(),
    {
        if !self.game_ended {
            let target = self.ghost_piece;
            self.lock_piece(&target);
        }
        proof {
            lemma_intents_keep_wf(old(self)@, false, self@.next[5]);
            if old(self)@.hard_drop_draws() {
                lemma_lock_takes_the_next_piece(
                    old(self)@,
                    old(self)@.ghost_piece,
                    self@.next[5],
                );
            }
        }
    }

    /// Reports whether the soft-drop key is down.
    pub fn set_drop(&mut self, state: bool)
        requires
            old(self).wf(),
        ensures
            final(self).wf(),
            final(self)@ == old(self)@.after_set_drop(state),
            final(self).rotation_system() == old(self).rotation_system(),
            final(self).randomizer() == old(self).randomizer(),
    {
        if !self.game_ended {
            self.drop_held = state;
        }
    }

    /// Reports whether the left key is down.
    pub fn set_left(&mut self, state: bool)
        requires
            old(self).wf(),
        ensures
            final(self).wf(),
            final(self)@ == old(self)@.after_set_left(state),
            final(self).rotation_system() == old(self).rotation_system(),
            final(self).randomizer() == old(self).randomizer(),
    {
        if !self.game_ended && state != self.left_held {
            if state {
                self.shift_left();
            }
            self.das_ticks = 0;
            self.das_movement = 0;
            self.left_held = state;
            self.held_direction = if state {
                HeldDirection::Left
            } else {
                if self.right_held {
                    HeldDirection::Right
                } else {
                    HeldDirection::Neither
                }
            };
        }
        proof {
            lemma_intents_keep_wf(old(self)@, state, Piece::I);
        }
    }

    /// Reports whether the right key is down.
    pub fn set_right(&mut self, state: bool)
        requires
            old(self).wf(),
        ensures
            final(self).wf(),
            final(self)@ == old(self)@.after_set_right(state),
            final(self).rotation_system() == old(self).rotation_system(),
            final(self).randomizer() == old(self).randomizer(),
    {
        if !self.game_ended && state != self.right_held {
            if state {
                self.shift_right();
            }
            self.das_ticks = 0;
            self.das_movement = 0;
            self.right_held = state;
            self.held_direction = if state {
                HeldDirection::Right
            } else {
                if self.left_held {
                    HeldDirection::Left
                } else {
                    HeldDirection::Neither
                }
            };
        }
        proof {
            lemma_intents_keep_wf(old(self)@, state, Piece::I);
        }
    }

    /// The first phase of a tick in which rows are pending.
    fn clear_lines(&mut self)
        requires
            old(self).wf(),
        ensures
            final(self)@ == old(self)@.cleared(),
            final(self).line_clear_len == 0,
            final(self).rotation_system() == old(self).rotation_system(),
            final(self).randomizer() == old(self).randomizer(),
    {
        let lines: u32 = self.line_clear_len as u32;
        self.line_clear_count = self.line_clear_count.saturating_add(lines);
        self.line_clear_total = self.line_clear_total.saturating_add(lines);
        assert(self.level * self.ruleset.line_clear_coeff <= 0xFFFF_FFFF * 0xFFFF_FFFF)
            by (nonlinear_arith)
            requires
                self.level <= 0xFFFF_FFFF,
                self.ruleset.line_clear_coeff <= 0xFFFF_FFFF,
        ;
        let limit: u64 = self.ruleset.line_clear_constant as u64 + (self.level as u64) * (
        self.ruleset.line_clear_coeff as u64);
        if self.line_clear_count as u64 >= limit {
            self.line_clear_count = 0;
            self.level = self.level.saturating_add(1);
            self.update_gravity();
        }
        let mut i: usize = self.line_clear_len;
        proof {
            assert forall|k: int| 0 <= k < i implies (#[trigger] self.line_clear_rows@[k]) < 40 by {
                assert(old(self)@.pending[k] == self.line_clear_rows@[k]);
            }
        }
        while i > 0
            invariant
                i <= 4,
                self.line_clear_rows == old(self).line_clear_rows,
                self.line_clear_len == old(self).line_clear_len,
                forall|k: int| 0 <= k < i ==> (#[trigger] self.line_clear_rows@[k]) < 40,
                without_rows(
                    self.playfield_mask@,
                    self.line_clear_rows@.subrange(0, i as int),
                    EMPTY_ROW,
                ) == without_rows(old(self)@.rows, old(self)@.pending, EMPTY_ROW),
                without_rows(
                    grid_view(self.playfield_colors),
                    self.line_clear_rows@.subrange(0, i as int),
                    blank_colors(),
                ) == without_rows(old(self)@.colors, old(self)@.pending, blank_colors()),
                self@ == (GameState {
                    rows: self@.rows,
                    colors: self@.colors,
                    pending: old(self)@.pending,
                    ghost_piece: old(self)@.ghost_piece,
                    ..old(self)@.cleared()
                }),
                self.rotation_system() == old(self).rotation_system(),
                self.randomizer() == old(self).randomizer(),
            decreases i,
        {
            let ghost gone = self.line_clear_rows@.subrange(0, i as int);
            i -= 1;
            let l = self.line_clear_rows[i] as usize;
            assert(gone.last() == l && gone.drop_last() =~= self.line_clear_rows@.subrange(
                0,
                i as int,
            ));
            remove_row(&mut self.playfield_mask, &mut self.playfield_colors, l);
        }
        self.line_clear_len = 0;
        self.update_ghost();
        proof {
            assert(self.line_clear_rows@.subrange(0, 0) =~= Seq::<u32>::empty());
            assert(self@ =~~= old(self)@.cleared());
        }
    }

    /// The fall of a tick.
    fn apply_gravity(&mut self)
        requires
            old(self).wf(),
        ensures
            final(self)@ == old(self)@.fallen(),
            final(self).same_frame(old(self)),
            final(self).randomizer() == old(self).randomizer(),
    {
        let mut g: u64 = self.gravity;
        proof {
            crate::gravity::lemma_curve_is_bounded(self.level as nat);
        }
        if self.drop_held {
            assert(g * self.ruleset.drop_gravity_multiplier <= 2_400_000_000 * 1000)
                by (nonlinear_arith)
                requires
                    g <= 2_400_000_000,
                    self.ruleset.drop_gravity_multiplier <= 1000,
            ;
            g = g * self.ruleset.drop_gravity_multiplier;
        }
        let units: u64 = self.movement + g;
        let steps: u64 = units / ROW_UNITS;
        self.movement = units % ROW_UNITS;
        let mut piece = self.current_piece;
        let mut done: u64 = 0;
        while done < steps
            invariant
                done <= steps,
                fall(piece, self.playfield_mask@, (steps - done) as nat) == fall(
                    old(self)@.current,
                    self.playfield_mask@,
                    steps as nat,
                ),
            decreases steps - done,
        {
            if piece.y > 0 {
                piece.y -= 1;
                if piece.collides(&self.playfield_mask) {
                    piece.y += 1;
                }
            }
            done += 1;
        }
        self.current_piece = piece;
        self.update_ghost();
    }

    /// One column in the held direction.
    fn shift_held(&mut self)
        ensures
            final(self)@ == old(self)@.shift_held(),
            final(self).same_frame(old(self)),
            final(self).randomizer() == old(self).randomizer(),
    {
        match self.held_direction {
            HeldDirection::Neither => {},
            HeldDirection::Left => self.shift_left(),
            HeldDirection::Right => self.shift_right(),
        }
    }

    /// The auto-repeat of a tick.
    fn auto_shift(&mut self)
        requires
            old(self).wf(),
        ensures
            final(self)@ == old(self)@.auto_shifted(),
            final(self).same_frame(old(self)),
            final(self).randomizer() == old(self).randomizer(),
    {
        if self.held_direction != HeldDirection::Neither {
            if self.das_ticks < self.ruleset.das_delay {
                self.das_ticks += 1;
            } else {
                let units: u64 = self.das_movement + self.ruleset.das_gravity;
                let steps: u64 = units / ROW_UNITS;
                self.das_movement = units % ROW_UNITS;
                let ghost base = self@;
                let mut done: u64 = 0;
                while done < steps
                    invariant
                        done <= steps,
                        self@.shift_held_by((steps - done) as nat) == base.shift_held_by(
                            steps as nat,
                        ),
                        self.same_frame(old(self)),
                        self.randomizer() == old(self).randomizer(),
                    decreases steps - done,
                {
                    self.shift_held();
                    done += 1;
                }
            }
        }
    }

    /// The lock delay of a tick.
    fn tick_lock(&mut self)
        requires
            old(self).wf(),
            old(self)@.running,
        ensures
            final(self)@ == old(self)@.lock_ticked(final(self)@.next[5]),
            final(self).same_frame(old(self)),
            old(self)@.lock_draws() ==> exists|r: &mut RNG|
                #![trigger call_ensures(RNG::get_next_piece, (r,), final(self)@.next[5])]
                {
                    &&& mut_ref_current(r) == old(self).randomizer()
                    &&& mut_ref_future(r) == final(self).randomizer()
                    &&& call_ensures(RNG::get_next_piece, (r,), final(self)@.next[5])
                },
            !old(self)@.lock_draws() ==> final(self).randomizer() == old(self).randomizer(),
    {
        // The piece will lock since it cannot move down more.
        if self.ghost_piece.y == self.current_piece.y {
            self.lock_ticks += 1;
        }
        if self.lock_ticks >= self.ruleset.lock_delay {
            let piece = self.current_piece;
            self.lock_piece(&piece);
        }
    }

    /// The last phase of a tick.
    fn scan_lines(&mut self)
        ensures
            final(self)@ == old(self)@.scanned(),
            final(self).line_clear_len <= 4,
            final(self).rotation_system() == old(self).rotation_system(),
            final(self).randomizer() == old(self).randomizer(),
    {
        let found = find_full_rows(&self.playfield_mask);
        self.line_clear_rows = found.0;
        self.line_clear_len = found.1;
    }

    /// Advances the game by one tick.
    ///
    /// A tick that finds rows pending removes them and does nothing else
    /// but find the ghost: ten cells go for each row, and as many rows at the
    /// top as were pending are empty. After every tick the ghost is where
    /// the piece lands. A tick that finds a piece that fits at rest
    /// in the row of its ghost, with the lock delay about to run out, locks
    /// the piece: its cells are set and painted, and the game goes on with
    /// the first piece of the queue unless the piece has a cell above the
    /// visible rows.
    pub fn update(&mut self)
        requires
            old(self).wf(),
        ensures
            final(self).wf(),
            final(self)@ == old(self)@.after_update(final(self)@.next[5]),
            final(self).rotation_system() == old(self).rotation_system(),
            old(self)@.update_draws() ==> exists|r: &mut RNG|
                #![trigger call_ensures(RNG::get_next_piece, (r,), final(self)@.next[5])]
                {
                    &&& mut_ref_current(r) == old(self).randomizer()
                    &&& mut_ref_future(r) == final(self).randomizer()
                    &&& call_ensures(RNG::get_next_piece, (r,), final(self)@.next[5])
                },
            !old(self)@.update_draws() ==> final(self).randomizer() == old(self).randomizer(),
            final(self)@.running ==> final(self)@.ghost_piece == landing(
                final(self)@.current,
                final(self)@.rows,
            ),
            old(self)@.running && old(self)@.pending.len() > 0 ==> ({
                let gone = old(self)@.pending.len();
                let after = final(self)@;
                &&& after == old(self)@.cleared()
                &&& cells_in(after.rows) == cells_in(old(self)@.rows) - 10 * gone
                &&& forall|r: int| 40 - gone <= r < 40 ==> #[trigger] after.rows[r] == EMPTY_ROW
                &&& forall|r: int|
                    40 - gone <= r < 40 ==> #[trigger] after.colors[r] == blank_colors()
            }),
            delay_runs_out_at_rest(old(self)@) ==> {
                &&& final(self)@.rows == with_piece(old(self)@.rows, old(self)@.current)
                &&& final(self)@.colors == painted(old(self)@.colors, old(self)@.current)
                &&& final(self)@.running == (old(self)@.current.top_row() < LOCK_OUT_ROW)
                &&& final(self)@.running ==> final(self)@.current
                    == old(self)@.next[0].spawned()
                &&& !final(self)@.running ==> final(self)@.current == old(self)@.current
                    && final(self)@.next == old(self)@.next
            },
    {
        if !self.game_ended {
            if self.line_clear_len > 0 {
                self.clear_lines();
            } else {
                proof {
                    assert(old(self)@.pending.len() == 0);
                }
                self.apply_gravity();
                proof {
                    crate::laws::lemma_fallen_keeps_wf(old(self)@);
                }
                self.auto_shift();
                proof {
                    crate::laws::lemma_auto_shifted_keeps_wf(old(self)@.fallen());
                }
                self.tick_lock();
                self.scan_lines();
            }
        }
        proof {
            lemma_update_keeps_wf(old(self)@, self@.next[5]);
            if delay_runs_out_at_rest(old(self)@) {
                lemma_grounded_piece_locks_when_the_delay_runs_out(old(self)@, self@.next[5]);
            }
            if old(self)@.running && old(self)@.pending.len() > 0 {
                lemma_cleared_rows(old(self)@);
                lemma_clear_takes_ten_cells_a_row(old(self)@);
            }
        }
    }
}

} // verus!
