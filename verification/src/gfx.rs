//! Graphics primitives: colors and grid coordinates.

pub mod color;
pub mod palette;
pub mod point;
