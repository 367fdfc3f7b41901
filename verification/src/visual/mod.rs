//! Colour data for the visualiser.

pub mod colors;
pub mod theme;
pub mod themes;
