//! Frame synthesis for a looping animated noise field: a grayscale noise
//! canvas is color-burned against a gradient, covered by a text layer,
//! resampled to the border's size and optionally framed by a border mask.

pub mod compose;
pub mod raster;
pub mod render;
pub mod resample;
