//! Backends: which implementation of a compute primitive runs, and what happens
//! when it fails.

pub mod blur;
pub mod blur_factory;
pub mod inference;
pub mod laws;
pub mod overrides;
pub mod wgpu_backend;
pub mod wgpu_blur;
