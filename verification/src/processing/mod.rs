//! Image processing on packed planes.

pub mod blur;
