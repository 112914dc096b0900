//! Color quantization against a palette taken from a second image: palette
//! extraction, nearest-color matching under the Manhattan metric, and
//! remapping of a pixel grid with its transparency kept.

pub mod codec;
pub mod color;
pub mod grid;
pub mod markup;
pub mod matcher;
pub mod palette;
pub mod remap;
pub mod upload;
