//! The segmented-composite pipeline: segmentation, mask effects, background and
//! foreground effects, alpha composite and post effects.

pub mod segmentation;
pub mod slots;
pub mod effect;
pub mod laws;
pub mod control_laws;
pub mod builder;
pub mod builder_laws;
