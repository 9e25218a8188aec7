//! The playfield in memory: the row masks that collision tests read, and
//! the colours of the cells, which are kept in step with the masks.

use vstd::prelude::*;
use crate::laws::{lemma_landing_is_below, lemma_landing_is_lowest};
use crate::piece::{has_cell, CurrentPiece, Piece, PlayfieldMask, Rgb};
use crate::state::{
    blank_colors, full_rows_from, landing, landing_row, painted, painted_row, piece_row,
    with_piece, without_row, EMPTY_ROW, FULL_ROW,
};

verus! {

/// The colour of every cell of the field, by row from the lowest and by
/// column from the left.
pub type PlayfieldColors = [[Rgb; 10]; 40];

/// The colours of a field as a sequence of rows.
pub open spec fn grid_view(colors: PlayfieldColors) -> Seq<Seq<Rgb>> {
    Seq::new(40, |r: int| colors@[r]@)
}

proof fn lemma_column_test(mask: u16, x: u16)
    by (bit_vector)
    requires
        x < 16,
    ensures
        ((1u16 << x) & mask != 0) == has_cell(mask, x),
{
}

proof fn lemma_no_cells(row: u16)
    by (bit_vector)
    ensures
        row | 0u16 == row,
        forall|c: u16| !#[trigger] has_cell(0u16, c),
{
}

proof fn lemma_full_test(row: u16)
    by (bit_vector)
    ensures
        (!row == 0) == (row == FULL_ROW),
{
}

/// Where `piece` lands over `playfield`: the place of its ghost. The piece
/// is moved down row by row until the row below is not free for it.
///
/// The result is the piece itself in a row that is not higher. For a piece
/// that fits where it is, every row from there down to the result is free
/// for it and the row below the result is not: the result is the lowest
/// row that the piece reaches by falling straight down. A piece that does
/// not fit where it is stays there.
pub fn landing_place(piece: &CurrentPiece, playfield: &PlayfieldMask) -> (landed: CurrentPiece)
    ensures
        landed == landing(*piece, playfield@),
        landed == piece.at_row(landed.y),
        landed.y <= piece.y,
        piece.collides_with(playfield@) ==> landed == *piece,
        !piece.collides_with(playfield@) ==> {
            &&& forall|y: u32|
                landed.y <= y <= piece.y ==> !(#[trigger] piece.at_row(y)).collides_with(
                    playfield@,
                )
            &&& landed.y == 0 || piece.at_row((landed.y - 1) as u32).collides_with(playfield@)
        },
{
    let mut landed = *piece;
    if !landed.collides(playfield) {
        while landed.y > 0
            invariant
                landed == piece.at_row(landed.y),
                landing_row(*piece, playfield@, piece.y) == landing_row(
                    *piece,
                    playfield@,
                    landed.y,
                ),
            ensures
                landed == piece.at_row(landed.y),
                landing_row(*piece, playfield@, piece.y) == landed.y,
            decreases landed.y,
        {
            let below = CurrentPiece { y: landed.y - 1, ..landed };
            if below.collides(playfield) {
                break ;
            }
            landed = below;
        }
        proof {
            lemma_landing_is_lowest(*piece, playfield@);
        }
    }
    proof {
        lemma_landing_is_below(*piece, playfield@);
    }
    landed
}

/// Paints the columns of one row that `mask` sets.
fn paint_row(colors: &mut [Rgb; 10], mask: u16, rgb: Rgb)
    ensures
        final(colors)@ == painted_row(old(colors)@, mask, rgb),
{
    let mut x: usize = 0;
    while x < 10
        invariant
            x <= 10,
            forall|c: int|
                0 <= c < 10 ==> #[trigger] colors@[c] == if c < x && has_cell(mask, c as u16) {
                    rgb
                } else {
                    old(colors)@[c]
                },
        decreases 10 - x,
    {
        proof {
            lemma_column_test(mask, x as u16);
        }
        if ((1u16 << x) & mask) != 0 {
            colors[x] = rgb;
        }
        x += 1;
    }
    assert(colors@ =~= painted_row(old(colors)@, mask, rgb));
}

/// Sets the cells of `piece` in the masks and paints them in the colour of
/// its kind. The box of the piece has to lie inside the field.
pub fn set_piece(
    mask: &mut PlayfieldMask,
    colors: &mut PlayfieldColors,
    piece: &CurrentPiece,
)
    requires
        piece.y < 36,
    ensures
        final(mask)@ == with_piece(old(mask)@, *piece),
        grid_view(*final(colors)) == painted(grid_view(*old(colors)), *piece),
{
    let c = piece.color();
    let rows = piece.mask();
    let base = piece.y as usize;
    let mut i: usize = 0;
    while i < 4
        invariant
            i <= 4,
            base == piece.y,
            base + 4 <= 40,
            rows@ == piece.rows(),
            c == piece.piece.rgb(),
            forall|r: int|
                0 <= r < 40 ==> #[trigger] mask@[r] == if base <= r < base + i {
                    old(mask)@[r] | piece_row(*piece, r)
                } else {
                    old(mask)@[r]
                },
            forall|r: int|
                0 <= r < 40 ==> #[trigger] colors@[r]@ == if base <= r < base + i {
                    painted_row(old(colors)@[r]@, piece_row(*piece, r), c)
                } else {
                    old(colors)@[r]@
                },
        decreases 4 - i,
    {
        let y = base + i;
        mask[y] |= rows[i];
        paint_row(&mut colors[y], rows[i], c);
        i += 1;
    }
    proof {
        assert forall|r: int| 0 <= r < 40 implies #[trigger] mask@[r] == with_piece(
            old(mask)@,
            *piece,
        )[r] by {
            lemma_no_cells(old(mask)@[r]);
        }
        assert(mask@ =~= with_piece(old(mask)@, *piece));
        assert forall|r: int| 0 <= r < 40 implies #[trigger] grid_view(*colors)[r] == painted(
            grid_view(*old(colors)),
            *piece,
        )[r] by {
            if !(base <= r < base + 4) {
                lemma_no_cells(0);
                assert(painted_row(old(colors)@[r]@, 0u16, c) =~= old(colors)@[r]@);
            }
        }
        assert(grid_view(*colors) =~= painted(grid_view(*old(colors)), *piece));
    }
}

/// Removes row `at`: every row above it moves down by one, and the top row
/// becomes empty.
pub fn remove_row(mask: &mut PlayfieldMask, colors: &mut PlayfieldColors, at: usize)
    requires
        at < 40,
    ensures
        final(mask)@ == without_row(old(mask)@, at as int, EMPTY_ROW),
        grid_view(*final(colors)) == without_row(
            grid_view(*old(colors)),
            at as int,
            blank_colors(),
        ),
{
    let mut i: usize = at;
    while i < 39
        invariant
            at <= i <= 39,
            forall|r: int|
                0 <= r < 40 ==> #[trigger] mask@[r] == if at <= r < i {
                    old(mask)@[r + 1]
                } else {
                    old(mask)@[r]
                },
            forall|r: int|
                0 <= r < 40 ==> #[trigger] colors@[r] == if at <= r < i {
                    old(colors)@[r + 1]
                } else {
                    old(colors)@[r]
                },
        decreases 39 - i,
    {
        mask[i] = mask[i + 1];
        colors[i] = colors[i + 1];
        i += 1;
    }
    mask[39] = EMPTY_ROW;
    colors[39] = [(0, 0, 0); 10];
    proof {
        assert(mask@ =~= without_row(old(mask)@, at as int, EMPTY_ROW));
        assert(colors@[39]@ =~= blank_colors());
        assert(grid_view(*colors) =~= without_row(
            grid_view(*old(colors)),
            at as int,
            blank_colors(),
        ));
    }
}

/// Finds the full rows, the lowest first, and stops at four. The result is
/// the buffer and the number of rows in it.
pub fn find_full_rows(mask: &PlayfieldMask) -> (found: ([u32; 4], usize))
    ensures
        found.1 <= 4,
        found.0@.subrange(0, found.1 as int) == full_rows_from(mask@, 0, 4),
{
    let mut rows: [u32; 4] = [0, 0, 0, 0];
    let mut count: usize = 0;
    let mut i: usize = 0;
    while i < 40 && count < 4
        invariant
            i <= 40,
            count <= 4,
            full_rows_from(mask@, 0, 4) == rows@.subrange(0, count as int) + full_rows_from(
                mask@,
                i as int,
                (4 - count) as nat,
            ),
        decreases 40 - i,
    {
        proof {
            lemma_full_test(mask[i as int]);
        }
        let ghost before = rows@.subrange(0, count as int);
        let ghost rest = full_rows_from(mask@, i + 1, (4 - count - 1) as nat);
        if !mask[i] == 0 {
            // Full line
            rows[count] = i as u32;
            count += 1;
            proof {
                assert(rows@.subrange(0, count as int) =~= before.push(i as u32));
                assert(before + (seq![i as u32] + rest) =~= before.push(i as u32) + rest);
            }
        }
        i += 1;
    }
    assert(full_rows_from(mask@, i as int, (4 - count) as nat) =~= Seq::<u32>::empty());
    assert(rows@.subrange(0, count as int) + Seq::<u32>::empty() =~= rows@.subrange(
        0,
        count as int,
    ));
    (rows, count)
}

/// Takes the first piece of the preview queue; the others move up and
/// `drawn` joins at the end.
pub fn take_next(queue: &mut [Piece; 6], drawn: Piece) -> (first: Piece)
    ensures
        first == old(queue)@[0],
        final(queue)@ == old(queue)@.drop_first().push(drawn),
{
    let first = queue[0];
    let mut i: usize = 0;
    while i < 5
        invariant
            i <= 5,
            forall|k: int|
                0 <= k < 6 ==> #[trigger] queue@[k] == if k < i {
                    old(queue)@[k + 1]
                } else {
                    old(queue)@[k]
                },
        decreases 5 - i,
    {
        queue[i] = queue[i + 1];
        i += 1;
    }
    queue[5] = drawn;
    assert(queue@ =~= old(queue)@.drop_first().push(drawn));
    first
}

} // verus!
