//! The cell model and the encoder that turns cells into terminal bytes.

pub mod cell;
pub mod escape;
pub mod laws;
pub mod painter;
