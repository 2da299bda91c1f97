//! Codec bitstream layers.

pub mod h264;
