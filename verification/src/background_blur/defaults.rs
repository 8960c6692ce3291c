//! Default parameters of the background blur.

use vstd::prelude::*;

verus! {

/// Half-kernel radius of the box blur (pixels).
pub const BLUR_RADIUS: u32 = 21;

/// Number of box-blur passes.
pub const BLUR_PASSES: u32 = 2;

/// Bit pattern of the mask binarisation threshold, `0.5`.
pub const MASK_THRESHOLD: u32 = 0x3F00_0000;

/// Bit pattern of the weight of the previous mask, `0.65`.
pub const MASK_SMOOTHING: u32 = 0x3F26_6666;

/// Feather radius in pixels.
pub const MASK_FEATHER_RADIUS: u32 = 7;

/// Number of dilation passes before feathering.
pub const MASK_DILATE: u32 = 1;

/// Consecutive failures that end the pipeline.
pub const FALLBACK_THRESHOLD: u32 = 3;

} // verus!
