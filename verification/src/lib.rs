//! Decoders for the binary assets of a landscape strategy game, and the
//! synthesis of its terrain textures from a height grid and lookup tables.

pub mod landscape;
pub mod model;
pub mod pop;
pub mod view;
