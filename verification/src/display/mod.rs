//! What the display shows: glyph slots, row composition and overlays.
pub mod icon_bank;
pub mod overlays;
