//! Blur everything but the person.
//!
//! Per frame: resize to the model's input, normalise and pack, infer, decode a
//! confidence mask, resize it back, smooth, binarise, dilate and feather it, box
//! blur the frame, and lay the frame over the blurred one by the mask.

pub mod config;
pub mod defaults;
pub mod effect;
pub mod laws;

pub use config::BlurConfig;
pub use effect::BackgroundBlurEffect;
