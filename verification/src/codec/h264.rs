//! The H.264 bitstream layer: the NAL unit writer, the parameter set and slice
//! header types, and their synthesis.

pub mod building;
pub mod decoder;
pub mod emulation;
pub mod golomb;
pub mod nalu_writer;
pub mod parser;
pub mod readback;
pub mod slices;
pub mod succeeding;
pub mod syntax;
pub mod synthesizer;
pub mod writing;
