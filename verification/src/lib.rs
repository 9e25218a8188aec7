//! Rules engine of a falling-block puzzle game.

pub mod game;
pub mod gravity;
pub mod laws;
pub mod piece;
pub mod playfield;
pub mod random;
pub mod rotate;
pub mod state;

pub use game::Game;
pub use piece::{CurrentPiece, Piece, PlayfieldMask, Rotation};
pub use state::{HeldDirection, Ruleset};
