//! How far the current calendar year has progressed, as a whole-number
//! percentage and as a fixed-width bar of filled and empty glyphs.

pub mod calendar;
pub mod progress;
pub mod laws;
