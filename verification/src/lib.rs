//! Decision logic of a fractal slide show: which fractal is shown after each
//! cycle, and how the scrolling line of colour values is kept.

pub mod caption;
pub mod fractal;
pub mod rotation;
