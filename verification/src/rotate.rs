//! Rotation of a piece against the playfield, with wall kicks.
//!
//! A rotation system answers one question: where does a piece end up when
//! it is turned by a quarter, if anywhere. The super rotation system turns
//! the piece, moves its bounding box by a shift that depends on the kind and
//! the turn, and then tries five offsets in a fixed order. The first offset
//! at which the piece fits decides.

use vstd::prelude::*;
use crate::piece::{CurrentPiece, Piece, PlayfieldMask, Rotation};

verus! {

/// A rule for turning pieces: given a piece and the playfield, the
/// placement of the piece after a quarter turn, or `None` where the turn is
/// refused.
///
/// The engine takes the placement that it is given. An implementation owes
/// it what the methods ensure: a placement that is returned fits the
/// playfield.
pub trait Rotate {
    /// Turns `piece` counter-clockwise.
    fn rotate_left(
        &self,
        piece: &CurrentPiece,
        playfield: &PlayfieldMask,
    ) -> (r: Option<CurrentPiece>)
        ensures
            r matches Some(p) ==> !p.collides_with(playfield@),
    ;

    /// Turns `piece` clockwise.
    fn rotate_right(
        &self,
        piece: &CurrentPiece,
        playfield: &PlayfieldMask,
    ) -> (r: Option<CurrentPiece>)
        ensures
            r matches Some(p) ==> !p.collides_with(playfield@),
    ;
}

/// Number of offsets that are tried for one turn.
pub const KICK_TESTS: usize = 5;

/// The orientation that a turn reaches.
pub open spec fn turn_target(rotation: Rotation, clockwise: bool) -> Rotation {
    if clockwise {
        rotation.turn_right()
    } else {
        rotation.turn_left()
    }
}

/// The orientation under which the tables are read: the one that a
/// clockwise turn leaves, and the one that a counter-clockwise turn reaches.
/// A counter-clockwise turn reads the entries of the clockwise turn that it
/// undoes, with the opposite sign.
pub open spec fn table_key(rotation: Rotation, clockwise: bool) -> Rotation {
    if clockwise {
        rotation
    } else {
        rotation.turn_left()
    }
}

/// 1 for a clockwise turn, -1 for a counter-clockwise turn.
pub open spec fn turn_sign(clockwise: bool) -> int {
    if clockwise {
        1
    } else {
        -1
    }
}

/// The five kick offsets (columns, rows) for a kind and a table key, in the
/// order in which they are tried. The I piece has a table of its own; all
/// other kinds share one.
pub open spec fn kick_tests(piece: Piece, key: Rotation) -> Seq<(int, int)> {
    match piece {
        Piece::I => match key {
            Rotation::Rotate0 => seq![(0, 0), (-2, 0), (1, 0), (-2, -1), (1, 2)],
            Rotation::Rotate90 => seq![(0, 0), (-1, 0), (2, 0), (-1, 2), (2, -1)],
            Rotation::Rotate180 => seq![(0, 0), (2, 0), (-1, 0), (2, 1), (-1, -2)],
            Rotation::Rotate270 => seq![(0, 0), (1, 0), (-2, 0), (1, -2), (-2, 1)],
        },
        _ => match key {
            Rotation::Rotate0 => seq![(0, 0), (-1, 0), (-1, 1), (0, -2), (-1, -2)],
            Rotation::Rotate90 => seq![(0, 0), (1, 0), (1, -1), (0, 2), (1, 2)],
            Rotation::Rotate180 => seq![(0, 0), (1, 0), (1, 1), (0, -2), (1, -2)],
            Rotation::Rotate270 => seq![(0, 0), (-1, 0), (-1, -1), (0, 2), (-1, 2)],
        },
    }
}

/// The shift (columns, rows) between the bounding boxes of the two
/// orientations of a turn, for a kind and a table key.
pub open spec fn pivot_shift(piece: Piece, key: Rotation) -> (int, int) {
    match piece {
        Piece::I => match key {
            Rotation::Rotate0 => (2, -2),
            Rotation::Rotate90 => (-2, 1),
            Rotation::Rotate180 => (1, -1),
            Rotation::Rotate270 => (-1, 2),
        },
        Piece::O => (0, 0),
        _ => match key {
            Rotation::Rotate0 => (1, -1),
            Rotation::Rotate90 => (-1, 0),
            Rotation::Rotate180 => (0, 0),
            Rotation::Rotate270 => (0, 1),
        },
    }
}

/// Column offset and row that kick number `i` proposes.
pub open spec fn kick_position(piece: CurrentPiece, clockwise: bool, i: int) -> (int, int) {
    let key = table_key(piece.rotation, clockwise);
    let shift = pivot_shift(piece.piece, key);
    let kick = kick_tests(piece.piece, key)[i];
    (
        piece.x + shift.0 * turn_sign(clockwise) + kick.0 * turn_sign(clockwise),
        piece.y + shift.1 * turn_sign(clockwise) + kick.1 * turn_sign(clockwise),
    )
}

/// The turned piece at the position that kick number `i` proposes.
pub open spec fn kick_placement(piece: CurrentPiece, clockwise: bool, i: int) -> CurrentPiece {
    let at = kick_position(piece, clockwise, i);
    CurrentPiece {
        piece: piece.piece,
        x: at.0 as u32,
        y: at.1 as u32,
        rotation: turn_target(piece.rotation, clockwise),
    }
}

/// Whether kick number `i` is taken when it is reached: both coordinates
/// are coordinates, and the turned piece fits there.
pub open spec fn kick_fits(piece: CurrentPiece, field: Seq<u16>, clockwise: bool, i: int) -> bool {
    let at = kick_position(piece, clockwise, i);
    &&& 0 <= at.0 <= u32::MAX
    &&& 0 <= at.1 <= u32::MAX
    &&& !kick_placement(piece, clockwise, i).collides_with(field)
}

/// The placement of the first kick that fits among those from number `from`
/// on.
pub open spec fn first_fit(
    piece: CurrentPiece,
    field: Seq<u16>,
    clockwise: bool,
    from: int,
) -> Option<CurrentPiece>
    decreases KICK_TESTS - from,
{
    if from < 0 || from >= KICK_TESTS {
        None
    } else if kick_fits(piece, field, clockwise, from) {
        Some(kick_placement(piece, clockwise, from))
    } else {
        first_fit(piece, field, clockwise, from + 1)
    }
}

/// The answer of the super rotation system.
pub open spec fn srs_turn(
    piece: CurrentPiece,
    field: Seq<u16>,
    clockwise: bool,
) -> Option<CurrentPiece> {
    first_fit(piece, field, clockwise, 0)
}

/// The order of the kicks decides. A turn is granted exactly if some kick
/// fits, and the placement is that of the earliest kick that fits, whatever
/// later kicks would allow. The placement keeps the kind, has the reached
/// orientation, and fits the playfield.
pub proof fn lemma_earliest_kick_wins(piece: CurrentPiece, field: Seq<u16>, clockwise: bool)
    ensures
        srs_turn(piece, field, clockwise) is None <==> forall|i: int|
            0 <= i < KICK_TESTS ==> !kick_fits(piece, field, clockwise, i),
        srs_turn(piece, field, clockwise) matches Some(p) ==> {
            &&& exists|i: int|
                {
                    &&& 0 <= i < KICK_TESTS
                    &&& kick_fits(piece, field, clockwise, i)
                    &&& p == kick_placement(piece, clockwise, i)
                    &&& forall|j: int| 0 <= j < i ==> !kick_fits(piece, field, clockwise, j)
                }
            &&& p.piece == piece.piece
            &&& p.rotation == turn_target(piece.rotation, clockwise)
            &&& !p.collides_with(field)
        },
{
    lemma_first_fit_from(piece, field, clockwise, 0);
}

proof fn lemma_first_fit_from(piece: CurrentPiece, field: Seq<u16>, clockwise: bool, from: int)
    requires
        0 <= from <= KICK_TESTS,
    ensures
        first_fit(piece, field, clockwise, from) is None <==> forall|i: int|
            from <= i < KICK_TESTS ==> !kick_fits(piece, field, clockwise, i),
        first_fit(piece, field, clockwise, from) matches Some(p) ==> exists|i: int|
            {
                &&& from <= i < KICK_TESTS
                &&& kick_fits(piece, field, clockwise, i)
                &&& p == kick_placement(piece, clockwise, i)
                &&& forall|j: int| from <= j < i ==> !kick_fits(piece, field, clockwise, j)
            },
    decreases KICK_TESTS - from,
{
    if from < KICK_TESTS {
        if kick_fits(piece, field, clockwise, from) {
            assert(from <= from < KICK_TESTS && kick_fits(piece, field, clockwise, from)
                && first_fit(piece, field, clockwise, from) == Some(
                kick_placement(piece, clockwise, from),
            ));
        } else {
            lemma_first_fit_from(piece, field, clockwise, from + 1);
            if let Some(p) = first_fit(piece, field, clockwise, from + 1) {
                let i = choose|i: int|
                    {
                        &&& from + 1 <= i < KICK_TESTS
                        &&& kick_fits(piece, field, clockwise, i)
                        &&& p == kick_placement(piece, clockwise, i)
                        &&& forall|j: int|
                            from + 1 <= j < i ==> !kick_fits(piece, field, clockwise, j)
                    };
                assert(from <= i < KICK_TESTS && kick_fits(piece, field, clockwise, i) && p
                    == kick_placement(piece, clockwise, i) && forall|j: int|
                    from <= j < i ==> !kick_fits(piece, field, clockwise, j));
            }
        }
    }
}

/// The super rotation system. It has no state.
pub struct SuperRotationSystem {}

/// The kick table as executable code.
fn kick_table(piece: Piece, key: Rotation) -> (t: [(i64, i64); 5])
    ensures
        forall|i: int|
            0 <= i < 5 ==> (#[trigger] t[i]).0 == kick_tests(piece, key)[i].0 && t[i].1
                == kick_tests(piece, key)[i].1,
        forall|i: int| 0 <= i < 5 ==> -2 <= (#[trigger] t[i]).0 <= 2 && -2 <= t[i].1 <= 2,
{
    match piece {
        Piece::I => match key {
            Rotation::Rotate0 => [(0, 0), (-2, 0), (1, 0), (-2, -1), (1, 2)],
            Rotation::Rotate90 => [(0, 0), (-1, 0), (2, 0), (-1, 2), (2, -1)],
            Rotation::Rotate180 => [(0, 0), (2, 0), (-1, 0), (2, 1), (-1, -2)],
            Rotation::Rotate270 => [(0, 0), (1, 0), (-2, 0), (1, -2), (-2, 1)],
        },
        Piece::J | Piece::L | Piece::O | Piece::S | Piece::T | Piece::Z => match key {
            Rotation::Rotate0 => [(0, 0), (-1, 0), (-1, 1), (0, -2), (-1, -2)],
            Rotation::Rotate90 => [(0, 0), (1, 0), (1, -1), (0, 2), (1, 2)],
            Rotation::Rotate180 => [(0, 0), (1, 0), (1, 1), (0, -2), (1, -2)],
            Rotation::Rotate270 => [(0, 0), (-1, 0), (-1, -1), (0, 2), (-1, 2)],
        },
    }
}

/// The shift table as executable code.
fn pivot(piece: Piece, key: Rotation) -> (s: (i64, i64))
    ensures
        s.0 == pivot_shift(piece, key).0,
        s.1 == pivot_shift(piece, key).1,
        -2 <= s.0 <= 2,
        -2 <= s.1 <= 2,
{
    match piece {
        Piece::I => match key {
            Rotation::Rotate0 => (2, -2),
            Rotation::Rotate90 => (-2, 1),
            Rotation::Rotate180 => (1, -1),
            Rotation::Rotate270 => (-1, 2),
        },
        Piece::O => (0, 0),
        Piece::J | Piece::L | Piece::S | Piece::T | Piece::Z => match key {
            Rotation::Rotate0 => (1, -1),
            Rotation::Rotate90 => (-1, 0),
            Rotation::Rotate180 => (0, 0),
            Rotation::Rotate270 => (0, 1),
        },
    }
}

impl SuperRotationSystem {
    /// Turns `piece` by a quarter over `playfield`. The result is the
    /// placement of the first of the five kicks, in table order, whose
    /// coordinates are not negative and at which the turned piece fits;
    /// `None` if there is no such kick.
    pub fn rotate(
        &self,
        piece: &CurrentPiece,
        playfield: &PlayfieldMask,
        clockwise: bool,
    ) -> (r: Option<CurrentPiece>)
        ensures
            r == srs_turn(*piece, playfield@, clockwise),
            r matches Some(p) ==> !p.collides_with(playfield@),
    {
        let target = if clockwise {
            piece.rotation.right()
        } else {
            piece.rotation.left()
        };
        let key = if clockwise {
            piece.rotation
        } else {
            target
        };
        let tests = kick_table(piece.piece, key);
        let shift = pivot(piece.piece, key);
        let sign: i64 = if clockwise {
            1
        } else {
            -1
        };
        let x: i64 = piece.x as i64 + shift.0 * sign;
        let y: i64 = piece.y as i64 + shift.1 * sign;

        let mut i: usize = 0;
        while i < 5
            invariant
                i <= 5,
                sign == turn_sign(clockwise),
                key == table_key(piece.rotation, clockwise),
                target == turn_target(piece.rotation, clockwise),
                x == piece.x + pivot_shift(piece.piece, key).0 * sign,
                y == piece.y + pivot_shift(piece.piece, key).1 * sign,
                forall|k: int|
                    0 <= k < 5 ==> (#[trigger] tests[k]).0 == kick_tests(piece.piece, key)[k].0
                        && tests[k].1 == kick_tests(piece.piece, key)[k].1,
                forall|k: int|
                    0 <= k < 5 ==> -2 <= (#[trigger] tests[k]).0 <= 2 && -2 <= tests[k].1 <= 2,
                srs_turn(*piece, playfield@, clockwise) == first_fit(
                    *piece,
                    playfield@,
                    clockwise,
                    i as int,
                ),
            decreases 5 - i,
        {
            let test = tests[i];
            let x_tmp: i64 = x + test.0 * sign;
            let y_tmp: i64 = y + test.1 * sign;
            assert(x_tmp == kick_position(*piece, clockwise, i as int).0);
            assert(y_tmp == kick_position(*piece, clockwise, i as int).1);
            if x_tmp >= 0 && y_tmp >= 0 && x_tmp <= u32::MAX as i64 && y_tmp <= u32::MAX as i64 {
                let placed = CurrentPiece {
                    piece: piece.piece,
                    x: x_tmp as u32,
                    y: y_tmp as u32,
                    rotation: target,
                };
                assert(placed == kick_placement(*piece, clockwise, i as int));
                if !placed.collides(playfield) {
                    return Some(placed);
                }
            }
            i += 1;
        }
        None
    }
}

impl Rotate for SuperRotationSystem {
    fn rotate_left(
        &self,
        piece: &CurrentPiece,
        playfield: &PlayfieldMask,
    ) -> (r: Option<CurrentPiece>)
        ensures
            r == srs_turn(*piece, playfield@, false),
    {
        self.rotate(piece, playfield, false)
    }

    fn rotate_right(
        &self,
        piece: &CurrentPiece,
        playfield: &PlayfieldMask,
    ) -> (r: Option<CurrentPiece>)
        ensures
            r == srs_turn(*piece, playfield@, true),
    {
        self.rotate(piece, playfield, true)
    }
}

} // verus!
