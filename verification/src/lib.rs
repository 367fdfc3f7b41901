//! rav: a terminal audio visualiser, the parts of it that decide things.

pub mod strings;
pub mod surface;
pub mod testing;
pub mod ui;
pub mod visual;
pub mod units;
