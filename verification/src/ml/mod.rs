//! Machine-learning inference layer: model configuration, the packing and
//! decoding of tensors, and the inference engines.

pub mod engine;
pub mod laws;
pub mod loader;
pub mod model_config;
pub mod onnx;
pub mod openvino_engine;
pub mod tensor;
