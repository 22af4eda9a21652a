//! The decision logic of a "digital rain" screen effect: the glyph alphabet
//! that falling letters draw from, the growth of a falling strip of letters,
//! window closing on Escape and the choice of post-processing passes.

pub mod letter;
pub mod strip;
pub mod window;
pub mod post;
