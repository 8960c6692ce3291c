//! Model configuration: the tensor layout of a segmentation model and the
//! parameters of its pre- and post-processing.

use vstd::prelude::*;
use crate::error::InferenceError;
use crate::float_bits;
use crate::frame::PixelFormat;

verus! {

/// Tensor memory layout.
#[derive(Debug, Clone, Copy, PartialEq, Eq, Structural)]
pub enum TensorLayout {
    /// `[batch, height, width, channels]`
    Nhwc,
    /// `[batch, channels, height, width]`
    Nchw,
}

/// Tensor element type.
#[derive(Debug, Clone, Copy, PartialEq, Eq, Structural)]
pub enum TensorDType {
    /// 32-bit float.
    F32,
    /// Unsigned 8-bit integer.
    U8,
    /// Signed 8-bit integer.
    I8,
}

/// Layout of the output tensor.
#[derive(Debug, Clone, Copy, PartialEq, Eq, Structural)]
pub enum OutputLayout {
    /// `[height, width]`
    Hw,
    /// `[batch, height, width, channels]`
    Nhwc,
    /// `[batch, channels, height, width]`
    Nchw,
}

/// Meaning of the output tensor.
#[derive(Debug, Clone, Copy, PartialEq, Eq, Structural)]
pub enum OutputType {
    /// Single-channel confidence mask.
    Mask,
    /// Per-class probabilities.
    Probabilities,
    /// Per-class logits.
    Logits,
    /// Integer category mask; goes with `person_class_index`.
    CategoryMask,
}

/// Bit pattern of the default input scale, `1 / 255`.
pub const DEFAULT_INPUT_SCALE: u32 = 0x3B80_8081;

/// Configuration of one model.  Floating-point figures are single-precision bit
/// patterns.
#[derive(Debug)]
pub struct ModelConfig {
    /// Human-readable model identifier.
    pub name: String,
    /// Input tensor width in pixels.
    pub input_width: u32,
    /// Input tensor height in pixels.
    pub input_height: u32,
    /// Memory layout of the input tensor.
    pub input_layout: TensorLayout,
    /// Element type of the input tensor.
    pub input_dtype: TensorDType,
    /// Pixel format at the input.
    pub input_color: PixelFormat,
    /// Factor applied to each pixel value.
    pub input_scale: u32,
    /// Subtracted from each pixel value before scaling.
    pub input_zero_point: u32,
    /// Which output is consumed.
    pub output_index: usize,
    /// Layout of that output.
    pub output_layout: OutputLayout,
    /// Meaning of that output.
    pub output_type: OutputType,
    /// Class treated as foreground in a category mask.
    pub person_class_index: Option<u32>,
    /// Threshold on the mask, if any.
    pub threshold: Option<u32>,
}

impl Clone for ModelConfig {
    fn clone(&self) -> (r: Self)
        ensures
            r == *self,
    {
        ModelConfig {
            name: self.name.clone(),
            input_width: self.input_width,
            input_height: self.input_height,
            input_layout: self.input_layout,
            input_dtype: self.input_dtype,
            input_color: self.input_color,
            input_scale: self.input_scale,
            input_zero_point: self.input_zero_point,
            output_index: self.output_index,
            output_layout: self.output_layout,
            output_type: self.output_type,
            person_class_index: self.person_class_index,
            threshold: self.threshold,
        }
    }
}

impl ModelConfig {
    /// First rule that the configuration breaks, if any.
    pub open spec fn defect(&self) -> Option<Seq<char>> {
        if self.input_width == 0 || self.input_height == 0 {
            Some("input_width and input_height must be > 0"@)
        } else if float_bits::rank(self.input_scale) == 0 || float_bits::nan(self.input_scale)
            || self.input_scale as int % 0x8000_0000 == float_bits::INFINITY {
            Some("input_scale must be a positive finite number"@)
        } else if self.output_type == OutputType::CategoryMask && self.person_class_index is None {
            Some("person_class_index is required when output_type = \"category_mask\""@)
        } else if self.threshold matches Some(t) && !float_bits::in_unit(t) {
            Some("threshold must be in [0,1]"@)
        } else {
            None
        }
    }

    /// A configuration with every optional field at its default.
    #[must_use]
    pub fn new(name: &str, input_width: u32, input_height: u32) -> (r: Self)
        ensures
            r.name@ == name@,
            r.input_width == input_width,
            r.input_height == input_height,
            r.input_layout == TensorLayout::Nhwc,
            r.input_dtype == TensorDType::F32,
            r.input_color == PixelFormat::Rgb,
            r.input_scale == DEFAULT_INPUT_SCALE,
            r.input_zero_point == float_bits::ZERO,
            r.output_index == 0,
            r.output_layout == OutputLayout::Hw,
            r.output_type == OutputType::Mask,
            r.person_class_index is None,
            r.threshold is None,
            r.defect() is None <==> input_width > 0 && input_height > 0,
    {
        ModelConfig {
            name: name.to_owned(),
            input_width,
            input_height,
            input_layout: TensorLayout::Nhwc,
            input_dtype: TensorDType::F32,
            input_color: PixelFormat::Rgb,
            input_scale: DEFAULT_INPUT_SCALE,
            input_zero_point: float_bits::ZERO,
            output_index: 0,
            output_layout: OutputLayout::Hw,
            output_type: OutputType::Mask,
            person_class_index: None,
            threshold: None,
        }
    }

    /// Stand-in for a model without a configuration of its own: a 1x1 input,
    /// which no real effect accepts.
    #[must_use]
    pub fn placeholder() -> (r: Self)
        ensures
            r.name@ == "<unknown>"@,
            r.input_width == 1,
            r.input_height == 1,
            r.defect() is None,
    {
        ModelConfig::new("<unknown>", 1, 1)
    }

    /// Check what the schema alone does not enforce.
    pub fn validate(&self) -> (r: Result<(), InferenceError>)
        ensures
            match r {
                Ok(()) => self.defect() is None,
                Err(e) => e matches InferenceError::InvalidModelConfig { reason }
                    && self.defect() == Some(reason@),
            },
    {
        let reason: &str = if self.input_width == 0 || self.input_height == 0 {
            "input_width and input_height must be > 0"
        } else if self.input_scale == float_bits::ZERO || self.input_scale == float_bits::SIGN
            || float_bits::is_nan(self.input_scale) || float_bits::is_infinite(self.input_scale) {
            "input_scale must be a positive finite number"
        } else if self.output_type == OutputType::CategoryMask
            && self.person_class_index.is_none() {
            "person_class_index is required when output_type = \"category_mask\""
        } else {
            match self.threshold {
                Some(t) => {
                    if float_bits::is_in_unit(t) {
                        return Ok(());
                    }
                    "threshold must be in [0,1]"
                },
                None => {
                    return Ok(());
                },
            }
        };
        Err(InferenceError::InvalidModelConfig { reason: reason.to_owned() })
    }
}

} // verus!
