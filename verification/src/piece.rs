//! Piece kinds, rotation states, and a piece placed over the playfield.
//!
//! A placed piece is described by the four row masks of its 4x4 bounding
//! box. Row masks are 16-bit words: bit `c` of a word stands for column `c`,
//! and the first of the four words is the lowest row of the box.

use vstd::prelude::*;

verus! {

/// Number of rows of the playfield buffer: the visible rows and, above
/// them, the overflow region in which pieces appear.
pub const FIELD_ROWS: u32 = 40;

/// Number of playable columns.
pub const FIELD_COLUMNS: u32 = 10;

/// Row in which the bounding box of a fresh piece starts, just above the
/// visible rows.
pub const SPAWN_ROW: u32 = 20;

/// A display colour as (red, green, blue).
pub type Rgb = (u8, u8, u8);

/// One 16-bit word per row, lowest row first. Bits 0 to 9 are the columns;
/// bits 10 to 15 of every row are set and stand for the wall on the right.
pub type PlayfieldMask = [u16; 40];

/// The seven piece kinds.
#[derive(Debug, Clone, Copy, PartialEq, Eq, Structural)]
pub enum Piece {
    I,
    J,
    L,
    O,
    S,
    T,
    Z,
}

/// The four orientations of a piece.
#[derive(Debug, Default, Clone, Copy, PartialEq, Eq, Structural)]
pub enum Rotation {
    #[default]
    Rotate0,
    Rotate90,
    Rotate180,
    Rotate270,
}

/// A piece over the playfield: its kind, the column offset `x` of its
/// bounding box, the row `y` of the lowest row of the box, and its
/// orientation.
#[derive(Debug, Clone, Copy, PartialEq, Eq, Structural)]
pub struct CurrentPiece {
    pub piece: Piece,
    pub x: u32,
    pub y: u32,
    pub rotation: Rotation,
}

/// 1 if column `c` is set in `row`, else 0.
pub open spec fn cell(row: u16, c: u16) -> int {
    ((row >> c) & 1u16) as int
}

/// Whether column `c` is set in `row`.
pub open spec fn has_cell(row: u16, c: u16) -> bool {
    (row >> c) & 1u16 == 1u16
}

/// Number of columns that are set in `row`.
pub open spec fn cell_count(row: u16) -> int {
    cell(row, 0) + cell(row, 1) + cell(row, 2) + cell(row, 3) + cell(row, 4) + cell(row, 5) + cell(
        row,
        6,
    ) + cell(row, 7) + cell(row, 8) + cell(row, 9) + cell(row, 10) + cell(row, 11) + cell(row, 12)
        + cell(row, 13) + cell(row, 14) + cell(row, 15)
}

/// The row mask `shape` moved `x` columns to the right. Columns that leave
/// the 16-bit word are lost.
pub open spec fn shifted(shape: u16, x: u32) -> u16 {
    if x < 16 {
        shape << x
    } else {
        0u16
    }
}

/// The four row masks of a piece kind in an orientation, at column offset 0.
/// This is a fixed table, one entry for each kind and orientation.
pub open spec fn shape_rows(piece: Piece, rotation: Rotation) -> Seq<u16> {
    match piece {
        Piece::I => match rotation {
            Rotation::Rotate0 | Rotation::Rotate180 => seq![0b1111u16, 0u16, 0u16, 0u16],
            Rotation::Rotate90 | Rotation::Rotate270 => seq![0b1u16, 0b1u16, 0b1u16, 0b1u16],
        },
        Piece::J => match rotation {
            Rotation::Rotate0 => seq![0b111u16, 0b001u16, 0u16, 0u16],
            Rotation::Rotate90 => seq![0b01u16, 0b01u16, 0b11u16, 0u16],
            Rotation::Rotate180 => seq![0b100u16, 0b111u16, 0u16, 0u16],
            Rotation::Rotate270 => seq![0b11u16, 0b10u16, 0b10u16, 0u16],
        },
        Piece::L => match rotation {
            Rotation::Rotate0 => seq![0b111u16, 0b100u16, 0u16, 0u16],
            Rotation::Rotate90 => seq![0b11u16, 0b01u16, 0b01u16, 0u16],
            Rotation::Rotate180 => seq![0b001u16, 0b111u16, 0u16, 0u16],
            Rotation::Rotate270 => seq![0b10u16, 0b10u16, 0b11u16, 0u16],
        },
        Piece::O => seq![0b11u16, 0b11u16, 0u16, 0u16],
        Piece::S => match rotation {
            Rotation::Rotate0 | Rotation::Rotate180 => seq![0b011u16, 0b110u16, 0u16, 0u16],
            Rotation::Rotate90 | Rotation::Rotate270 => seq![0b10u16, 0b11u16, 0b01u16, 0u16],
        },
        Piece::T => match rotation {
            Rotation::Rotate0 => seq![0b111u16, 0b010u16, 0u16, 0u16],
            Rotation::Rotate90 => seq![0b01u16, 0b11u16, 0b01u16, 0u16],
            Rotation::Rotate180 => seq![0b010u16, 0b111u16, 0u16, 0u16],
            Rotation::Rotate270 => seq![0b10u16, 0b11u16, 0b10u16, 0u16],
        },
        Piece::Z => match rotation {
            Rotation::Rotate0 | Rotation::Rotate180 => seq![0b110u16, 0b011u16, 0u16, 0u16],
            Rotation::Rotate90 | Rotation::Rotate270 => seq![0b01u16, 0b11u16, 0b10u16, 0u16],
        },
    }
}

/// Number of rows of a shape that hold a cell. The rows that hold cells are
/// the lowest rows of the box, so this is the height of the shape.
pub open spec fn shape_height(piece: Piece, rotation: Rotation) -> int {
    let s = shape_rows(piece, rotation);
    if s[3] != 0 {
        4
    } else if s[2] != 0 {
        3
    } else if s[1] != 0 {
        2
    } else {
        1
    }
}

/// A shape is one to four rows high; its rows up to its height hold cells
/// and the rows above hold none.
pub proof fn lemma_shape_height(piece: Piece, rotation: Rotation)
    ensures
        1 <= shape_height(piece, rotation) <= 4,
        forall|i: int|
            0 <= i < shape_height(piece, rotation) ==> #[trigger] shape_rows(piece, rotation)[i]
                != 0,
        forall|i: int|
            shape_height(piece, rotation) <= i < 4 ==> #[trigger] shape_rows(piece, rotation)[i]
                == 0,
{
}

/// Moving a row of at most four columns by at most twelve keeps every cell.
pub proof fn lemma_shift_keeps_cells(shape: u16, x: u32)
    by (bit_vector)
    requires
        shape <= 15,
        x <= 12,
    ensures
        cell_count(shifted(shape, x)) == cell_count(shape),
{
}

/// The cell counts of the row masks that occur in the shape table.
pub proof fn lemma_cell_counts()
    by (bit_vector)
    ensures
        cell_count(0u16) == 0,
        cell_count(0b1u16) == 1,
        cell_count(0b10u16) == 1,
        cell_count(0b100u16) == 1,
        cell_count(0b11u16) == 2,
        cell_count(0b110u16) == 2,
        cell_count(0b111u16) == 3,
        cell_count(0b1111u16) == 4,
{
}

/// Every row of the shape table has at most four columns, all among the
/// lowest four, and the four rows of an entry hold four cells together.
pub proof fn lemma_shape_has_four_cells(piece: Piece, rotation: Rotation)
    ensures
        shape_rows(piece, rotation).len() == 4,
        forall|i: int| 0 <= i < 4 ==> #[trigger] shape_rows(piece, rotation)[i] <= 15,
        cell_count(shape_rows(piece, rotation)[0]) + cell_count(shape_rows(piece, rotation)[1])
            + cell_count(shape_rows(piece, rotation)[2]) + cell_count(
            shape_rows(piece, rotation)[3],
        ) == 4,
{
    lemma_cell_counts();
}

impl Piece {
    /// Display colour of the kind.
    pub open spec fn rgb(self) -> Rgb {
        match self {
            Piece::I => (0u8, 255u8, 255u8),
            Piece::J => (0u8, 0u8, 255u8),
            Piece::L => (255u8, 127u8, 0u8),
            Piece::O => (255u8, 255u8, 0u8),
            Piece::S => (0u8, 255u8, 0u8),
            Piece::T => (255u8, 0u8, 255u8),
            Piece::Z => (255u8, 0u8, 0u8),
        }
    }

    /// Column offset at which the kind appears.
    pub open spec fn spawn_column(self) -> u32 {
        match self {
            Piece::O => 4u32,
            _ => 3u32,
        }
    }

    /// The placement in which a fresh piece of the kind appears.
    pub open spec fn spawned(self) -> CurrentPiece {
        CurrentPiece {
            piece: self,
            x: self.spawn_column(),
            y: SPAWN_ROW,
            rotation: Rotation::Rotate0,
        }
    }

    /// The display colour of the kind. No kind has the colour of an empty
    /// cell.
    pub fn color(&self) -> (c: Rgb)
        ensures
            c == self.rgb(),
            c != (0u8, 0u8, 0u8),
    {
        match self {
            // Cyan
            Piece::I => (0, 255, 255),
            // Blue
            Piece::J => (0, 0, 255),
            // Orange
            Piece::L => (255, 127, 0),
            // Yellow
            Piece::O => (255, 255, 0),
            // Green
            Piece::S => (0, 255, 0),
            // Purple
            Piece::T => (255, 0, 255),
            // Red
            Piece::Z => (255, 0, 0),
        }
    }

    /// A fresh piece of the kind where it appears: upright, just above
    /// the visible rows, in the column of its kind.
    pub fn spawn(self) -> (p: CurrentPiece)
        ensures
            p == self.spawned(),
    {
        CurrentPiece {
            piece: self,
            x: match self {
                Piece::I => 3,
                Piece::J => 3,
                Piece::L => 3,
                Piece::O => 4,
                Piece::S => 3,
                Piece::T => 3,
                Piece::Z => 3,
            },
            y: SPAWN_ROW,
            rotation: Rotation::Rotate0,
        }
    }

    /// The shape table as executable code.
    fn shape(self, rotation: Rotation) -> (s: [u16; 4])
        ensures
            s@ == shape_rows(self, rotation),
    {
        let s: [u16; 4] = match self {
            Piece::I => match rotation {
                Rotation::Rotate0 | Rotation::Rotate180 => [0b1111, 0, 0, 0],
                Rotation::Rotate90 | Rotation::Rotate270 => [0b1, 0b1, 0b1, 0b1],
            },
            Piece::J => match rotation {
                Rotation::Rotate0 => [0b111, 0b001, 0, 0],
                Rotation::Rotate90 => [0b01, 0b01, 0b11, 0],
                Rotation::Rotate180 => [0b100, 0b111, 0, 0],
                Rotation::Rotate270 => [0b11, 0b10, 0b10, 0],
            },
            Piece::L => match rotation {
                Rotation::Rotate0 => [0b111, 0b100, 0, 0],
                Rotation::Rotate90 => [0b11, 0b01, 0b01, 0],
                Rotation::Rotate180 => [0b001, 0b111, 0, 0],
                Rotation::Rotate270 => [0b10, 0b10, 0b11, 0],
            },
            Piece::O => [0b11, 0b11, 0, 0],
            Piece::S => match rotation {
                Rotation::Rotate0 | Rotation::Rotate180 => [0b011, 0b110, 0, 0],
                Rotation::Rotate90 | Rotation::Rotate270 => [0b10, 0b11, 0b01, 0],
            },
            Piece::T => match rotation {
                Rotation::Rotate0 => [0b111, 0b010, 0, 0],
                Rotation::Rotate90 => [0b01, 0b11, 0b01, 0],
                Rotation::Rotate180 => [0b010, 0b111, 0, 0],
                Rotation::Rotate270 => [0b10, 0b11, 0b10, 0],
            },
            Piece::Z => match rotation {
                Rotation::Rotate0 | Rotation::Rotate180 => [0b110, 0b011, 0, 0],
                Rotation::Rotate90 | Rotation::Rotate270 => [0b01, 0b11, 0b10, 0],
            },
        };
        assert(s@ =~= shape_rows(self, rotation));
        s
    }
}

impl Rotation {
    /// The orientation one quarter turn clockwise.
    pub open spec fn turn_right(self) -> Rotation {
        match self {
            Rotation::Rotate0 => Rotation::Rotate90,
            Rotation::Rotate90 => Rotation::Rotate180,
            Rotation::Rotate180 => Rotation::Rotate270,
            Rotation::Rotate270 => Rotation::Rotate0,
        }
    }

    /// The orientation one quarter turn counter-clockwise.
    pub open spec fn turn_left(self) -> Rotation {
        match self {
            Rotation::Rotate0 => Rotation::Rotate270,
            Rotation::Rotate90 => Rotation::Rotate0,
            Rotation::Rotate180 => Rotation::Rotate90,
            Rotation::Rotate270 => Rotation::Rotate180,
        }
    }

    /// The orientation one quarter turn clockwise.
    pub fn right(&self) -> (r: Rotation)
        ensures
            r == self.turn_right(),
    {
        match self {
            Rotation::Rotate0 => Rotation::Rotate90,
            Rotation::Rotate90 => Rotation::Rotate180,
            Rotation::Rotate180 => Rotation::Rotate270,
            Rotation::Rotate270 => Rotation::Rotate0,
        }
    }

    /// The orientation one quarter turn counter-clockwise.
    pub fn left(&self) -> (r: Rotation)
        ensures
            r == self.turn_left(),
    {
        match self {
            Rotation::Rotate0 => Rotation::Rotate270,
            Rotation::Rotate90 => Rotation::Rotate0,
            Rotation::Rotate180 => Rotation::Rotate90,
            Rotation::Rotate270 => Rotation::Rotate180,
        }
    }
}

/// The two turns undo each other, and four turns one way come back to the
/// start: the orientations form a cycle of length four.
pub proof fn lemma_rotation_cycle(r: Rotation)
    ensures
        r.turn_right().turn_left() == r,
        r.turn_left().turn_right() == r,
        r.turn_right().turn_right().turn_right().turn_right() == r,
        r.turn_left().turn_left().turn_left().turn_left() == r,
        r.turn_right() != r,
        r.turn_left() != r,
{
}

/// Moves `shape` by `x` columns; columns that leave the word are dropped.
fn shift_row(shape: u16, x: u32) -> (r: u16)
    ensures
        r == shifted(shape, x),
{
    if x < 16 {
        shape << x
    } else {
        0
    }
}

impl CurrentPiece {
    /// The four row masks of the piece at its column offset, lowest row
    /// first: the rows of the shape table, each moved by `x`.
    pub open spec fn rows(self) -> Seq<u16> {
        let s = shape_rows(self.piece, self.rotation);
        seq![
            shifted(s[0], self.x),
            shifted(s[1], self.x),
            shifted(s[2], self.x),
            shifted(s[3], self.x),
        ]
    }

    /// Whether the piece cannot be where it is: its bounding box leaves the
    /// buffer at the top, or one of its cells lies on a cell that is set in
    /// `field`. `field` is a playfield of `FIELD_ROWS` rows.
    pub open spec fn collides_with(self, field: Seq<u16>) -> bool {
        self.y >= FIELD_ROWS - 4 || self.rows()[0] & field[self.y + 0] != 0 || self.rows()[1]
            & field[self.y + 1] != 0 || self.rows()[2] & field[self.y + 2] != 0 || self.rows()[3]
            & field[self.y + 3] != 0
    }

    /// The highest row in which the piece has a cell.
    pub open spec fn top_row(self) -> int {
        self.y + shape_height(self.piece, self.rotation) - 1
    }

    /// The same piece in row `y`.
    pub open spec fn at_row(self, y: u32) -> CurrentPiece {
        CurrentPiece { y, ..self }
    }

    /// The same piece at column offset `x`.
    pub open spec fn at_column(self, x: u32) -> CurrentPiece {
        CurrentPiece { x, ..self }
    }

    /// A piece of kind `piece` at column offset `x` and row `y`.
    pub fn new(piece: Piece, x: u32, y: u32, rotation: Rotation) -> (p: Self)
        ensures
            p == (CurrentPiece { piece, x, y, rotation }),
    {
        CurrentPiece { piece, x, y, rotation }
    }

    /// The column offset of the bounding box.
    pub fn x(&self) -> (x: u32)
        ensures
            x == self.x,
    {
        self.x
    }

    /// The row of the lowest row of the bounding box.
    pub fn y(&self) -> (y: u32)
        ensures
            y == self.y,
    {
        self.y
    }

    /// The number of rows, counted from the lowest of the box, in which the
    /// piece has cells: 1 for a flat I, 4 for an upright one.
    pub fn height(&self) -> (h: u32)
        ensures
            h == shape_height(self.piece, self.rotation),
            1 <= h <= 4,
    {
        let s = self.piece.shape(self.rotation);
        if s[3] != 0 {
            4
        } else if s[2] != 0 {
            3
        } else if s[1] != 0 {
            2
        } else {
            1
        }
    }

    /// The row masks of the piece. While the whole shape stays inside the
    /// 16-bit rows, which it does up to column offset 12, they hold exactly
    /// four cells.
    pub fn mask(&self) -> (m: [u16; 4])
        ensures
            m@ == self.rows(),
            self.x <= 12 ==> cell_count(m[0]) + cell_count(m[1]) + cell_count(m[2]) + cell_count(
                m[3],
            ) == 4,
    {
        let s = self.piece.shape(self.rotation);
        let m: [u16; 4] = [
            shift_row(s[0], self.x),
            shift_row(s[1], self.x),
            shift_row(s[2], self.x),
            shift_row(s[3], self.x),
        ];
        proof {
            assert(m@ =~= self.rows());
            if self.x <= 12 {
                lemma_shape_has_four_cells(self.piece, self.rotation);
                lemma_shift_keeps_cells(s[0], self.x);
                lemma_shift_keeps_cells(s[1], self.x);
                lemma_shift_keeps_cells(s[2], self.x);
                lemma_shift_keeps_cells(s[3], self.x);
            }
        }
        m
    }

    /// The display colour of the piece.
    pub fn color(&self) -> (c: Rgb)
        ensures
            c == self.piece.rgb(),
            c != (0u8, 0u8, 0u8),
    {
        self.piece.color()
    }

    /// Whether the piece cannot be where it is over `playfield`: it reaches
    /// into the top four rows of the buffer or lies on a set cell.
    pub fn collides(&self, playfield: &PlayfieldMask) -> (hit: bool)
        ensures
            hit == self.collides_with(playfield@),
    {
        if self.y >= FIELD_ROWS - 4 {
            true
        } else {
            let mask = self.mask();
            let base = self.y as usize;
            let mut i: usize = 0;
            while i < 4
                invariant
                    i <= 4,
                    base == self.y,
                    base + 4 <= 40,
                    mask@ == self.rows(),
                    forall|j: int| 0 <= j < i ==> mask@[j] & #[trigger] playfield@[base + j] == 0,
                decreases 4 - i,
            {
                if mask[i] & playfield[base + i] != 0 {
                    return true;
                }
                i += 1;
            }
            proof {
                assert(mask@[0] & playfield@[base + 0] == 0);
                assert(mask@[1] & playfield@[base + 1] == 0);
                assert(mask@[2] & playfield@[base + 2] == 0);
                assert(mask@[3] & playfield@[base + 3] == 0);
            }
            false
        }
    }
}

} // verus!
