//! Lays out pre-measured text labels in a rectangular grid sized to fit a
//! display width, in the manner of a columnar directory listing.

pub mod cell;
pub mod display;
pub mod grid;
pub mod laws;
pub mod layout;
pub mod width;

pub use cell::Alignment;
pub use cell::GridCell;
pub use display::Display;
pub use grid::Grid;
pub use layout::Dimentions;
pub use layout::Direction;
pub use width::display_width_of;
