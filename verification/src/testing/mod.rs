//! Tools for checking what the display shows.

pub mod audio_monitor;
pub mod notes;
pub mod visual_analyzer;
