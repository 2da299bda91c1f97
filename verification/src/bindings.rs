//! The numbers of VA-API, and what passes for its handles.

use vstd::prelude::*;

verus! {

/// What a VA function returns.
pub type VAStatus = i32;

/// The status of a call that did what it was asked.
pub const VA_STATUS_SUCCESS: VAStatus = 0;

/// The id of no object.
pub const VA_INVALID_ID: u32 = 0xffff_ffff;

/// The profile of video processing.
pub const VA_PROFILE_NONE: i32 = -1;
/// H.264 Main.
pub const VA_PROFILE_H264_MAIN: i32 = 6;

/// Slice-level decoding.
pub const VA_ENTRYPOINT_VLD: u32 = 1;
/// Slice-level encoding.
pub const VA_ENTRYPOINT_ENC_SLICE: u32 = 6;
/// Slice-level encoding on the low-power engine.
pub const VA_ENTRYPOINT_ENC_SLICE_LP: u32 = 8;
/// Video processing.
pub const VA_ENTRYPOINT_VIDEO_PROC: u32 = 10;

/// The attribute for the render target formats.
pub const VA_CONFIG_ATTRIB_RT_FORMAT: u32 = 0;
/// The attribute for the rate control modes.
pub const VA_CONFIG_ATTRIB_RATE_CONTROL: u32 = 5;
/// The attribute for the packed headers of an encoder.
pub const VA_CONFIG_ATTRIB_ENC_PACKED_HEADERS: u32 = 10;
/// Set in the value of an attribute that a driver does not have.
pub const VA_ATTRIB_NOT_SUPPORTED: u32 = 0x8000_0000;

/// 4:2:0 render targets.
pub const VA_RT_FORMAT_YUV420: u32 = 0x0000_0001;
/// 4:2:2 render targets.
pub const VA_RT_FORMAT_YUV422: u32 = 0x0000_0002;
/// Packed RGB render targets of 32 bits.
pub const VA_RT_FORMAT_RGB32: u32 = 0x0002_0000;

/// Constant bitrate.
pub const VA_RC_CBR: u32 = 0x0000_0002;

/// The driver takes a packed sequence header.
pub const VA_ENC_PACKED_HEADER_SEQUENCE: u32 = 0x0000_0001;
/// The driver takes a packed picture header.
pub const VA_ENC_PACKED_HEADER_PICTURE: u32 = 0x0000_0002;

/// The entry of a reference list that names no picture.
pub const VA_PICTURE_H264_INVALID: u32 = 0x0000_0001;
/// A picture used for short-term reference.
pub const VA_PICTURE_H264_SHORT_TERM_REFERENCE: u32 = 0x0000_0008;

/// `NV12`.
pub const VA_FOURCC_NV12: u32 = 0x3231_564e;
/// `YUY2`.
pub const VA_FOURCC_YUY2: u32 = 0x3259_5559;
/// `BGRX`.
pub const VA_FOURCC_BGRX: u32 = 0x5852_4742;
/// `BGRA`.
pub const VA_FOURCC_BGRA: u32 = 0x4152_4742;
/// `RGBX`.
pub const VA_FOURCC_RGBX: u32 = 0x5842_4752;
/// `RGBA`.
pub const VA_FOURCC_RGBA: u32 = 0x4142_4752;
/// `XRGB`.
pub const VA_FOURCC_XRGB: u32 = 0x4247_5258;
/// `ARGB`.
pub const VA_FOURCC_ARGB: u32 = 0x4247_5241;

/// The surface will be decoded into.
pub const USAGE_HINT_DECODER: u32 = 0x0000_0001;
/// The surface will be encoded from.
pub const USAGE_HINT_ENCODER: u32 = 0x0000_0002;
/// The video processor will read the surface.
pub const USAGE_HINT_VPP_READ: u32 = 0x0000_0004;
/// The video processor will write the surface.
pub const USAGE_HINT_VPP_WRITE: u32 = 0x0000_0008;
/// The surface will be exported.
pub const USAGE_HINT_EXPORT: u32 = 0x0000_0020;

/// The color standard BT.601.
pub const VA_PROC_COLOR_STANDARD_BT601: u32 = 1;
/// The color standard BT.709.
pub const VA_PROC_COLOR_STANDARD_BT709: u32 = 2;

/// Samples that keep away from the ends of their range.
pub const VA_SOURCE_RANGE_REDUCED: u8 = 1;
/// Samples that use their whole range.
pub const VA_SOURCE_RANGE_FULL: u8 = 2;

/// The numbers are those that a driver goes by.
pub proof fn the_numbers_of_a_driver()
    ensures
        VA_STATUS_SUCCESS == 0 && VA_INVALID_ID == 0xffff_ffff,
        VA_PROFILE_NONE == -1 && VA_PROFILE_H264_MAIN == 6,
        VA_ENTRYPOINT_VLD == 1 && VA_ENTRYPOINT_ENC_SLICE == 6,
        VA_ENTRYPOINT_ENC_SLICE_LP == 8 && VA_ENTRYPOINT_VIDEO_PROC == 10,
        VA_CONFIG_ATTRIB_RT_FORMAT == 0 && VA_CONFIG_ATTRIB_RATE_CONTROL == 5,
        VA_CONFIG_ATTRIB_ENC_PACKED_HEADERS == 10 && VA_ATTRIB_NOT_SUPPORTED == 0x8000_0000,
        VA_RT_FORMAT_YUV420 == 1 && VA_RT_FORMAT_YUV422 == 2 && VA_RT_FORMAT_RGB32 == 0x2_0000,
        VA_RC_CBR == 2,
        VA_ENC_PACKED_HEADER_SEQUENCE == 1 && VA_ENC_PACKED_HEADER_PICTURE == 2,
        VA_PICTURE_H264_INVALID == 1 && VA_PICTURE_H264_SHORT_TERM_REFERENCE == 8,
        USAGE_HINT_DECODER == 0x1 && USAGE_HINT_ENCODER == 0x2 && USAGE_HINT_VPP_READ == 0x4,
        USAGE_HINT_VPP_WRITE == 0x8 && USAGE_HINT_EXPORT == 0x20,
        VA_PROC_COLOR_STANDARD_BT601 == 1 && VA_PROC_COLOR_STANDARD_BT709 == 2,
        VA_SOURCE_RANGE_REDUCED == 1 && VA_SOURCE_RANGE_FULL == 2,
{
}

} // verus!
