pub mod backend;
pub mod background_blur;
pub mod chain;
pub mod composite;
pub mod config;
pub mod context;
pub mod error;
pub mod float_bits;
pub mod frame;
pub mod mask_effects;
pub mod metadata;
pub mod metrics;
pub mod ml;
pub mod name_map;
pub mod params;
pub mod passthrough;
pub mod paths;
pub mod pixel_math;
pub mod plane;
pub mod processing;
pub mod protocol;
pub mod registry;
pub mod text;
pub mod traits;
