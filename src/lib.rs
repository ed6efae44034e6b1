//! A tile palette: slices a one-row sprite sheet into square tiles, caches one
//! texture per tile on first display, and tracks a single toggled selection.

pub mod selection;
pub mod sheet;
pub mod textures;
pub mod palette;
