//! A hot-swappable, reference-counted shared cell. Handles to one cell share a
//! packed word that holds the handle count and the tag of the installed value;
//! any handle can replace the value and get the old one back, and the value is
//! reclaimed when the last handle is given up.
pub mod packed;
pub mod state;
pub mod history;
pub mod cell;

pub use cell::{ArcCell, ArcRef};
