//! Maps every 24-bit RGB color to a unique pixel of a 4096x4096 canvas, and
//! renders named-color sets (and the difference of two sets) onto it.

pub mod codec;
pub mod hex;
pub mod color_set;
pub mod canvas;
pub mod render;
pub mod detail;
