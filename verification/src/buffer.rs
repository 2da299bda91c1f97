//! The buffers that a picture is rendered with, as plain values.

use vstd::prelude::*;

verus! {

/// A picture, as the H.264 parameters name it.
#[derive(Copy, Clone, Debug, PartialEq, Eq, Structural)]
pub struct PictureH264 {
    /// The id of its surface.
    pub picture_id: u32,
    pub frame_idx: u32,
    pub flags: u32,
    pub top_field_order_cnt: i32,
    pub bottom_field_order_cnt: i32,
}

/// The bit fields of [`EncSequenceParameterBufferH264`].
#[derive(Copy, Clone, Debug, PartialEq, Eq, Structural)]
pub struct H264EncSeqFields {
    pub chroma_format_idc: u8,
    pub frame_mbs_only_flag: bool,
    pub mb_adaptive_frame_field_flag: bool,
    pub seq_scaling_matrix_present_flag: bool,
    pub direct_8x8_inference_flag: bool,
    pub log2_max_frame_num_minus4: u8,
    pub pic_order_cnt_type: u8,
    pub log2_max_pic_order_cnt_lsb_minus4: u8,
    pub delta_pic_order_always_zero_flag: bool,
}

/// The cropping of the pictures.
#[derive(Copy, Clone, Debug, PartialEq, Eq, Structural)]
pub struct H264EncFrameCropOffsets {
    pub left: u32,
    pub right: u32,
    pub top: u32,
    pub bottom: u32,
}

/// The bit fields of the usability information.
///
/// The first is one bit wide, and takes the lowest of the index of the ratio.
#[derive(Copy, Clone, Debug, PartialEq, Eq, Structural)]
pub struct H264VuiFields {
    pub aspect_ratio_info_present_flag: u32,
    pub timing_info_present_flag: bool,
    pub bitstream_restriction_flag: bool,
    pub log2_max_mv_length_horizontal: u32,
    pub log2_max_mv_length_vertical: u32,
    pub fixed_frame_rate_flag: bool,
    pub low_delay_hrd_flag: bool,
    pub motion_vectors_over_pic_boundaries_flag: bool,
}

/// The parameters of an encoded sequence.
#[derive(Clone, Debug)]
pub struct EncSequenceParameterBufferH264 {
    pub seq_parameter_set_id: u8,
    pub level_idc: u8,
    pub intra_period: u32,
    pub intra_idr_period: u32,
    pub ip_period: u32,
    pub bits_per_second: u32,
    pub max_num_ref_frames: u32,
    pub picture_width_in_mbs: u16,
    pub picture_height_in_mbs: u16,
    pub seq_fields: H264EncSeqFields,
    pub bit_depth_luma_minus8: u8,
    pub bit_depth_chroma_minus8: u8,
    pub num_ref_frames_in_pic_order_cnt_cycle: u8,
    pub offset_for_non_ref_pic: i32,
    pub offset_for_top_to_bottom_field: i32,
    pub offset_for_ref_frame: [i32; 256],
    pub frame_crop: Option<H264EncFrameCropOffsets>,
    pub vui_fields: Option<H264VuiFields>,
    pub aspect_ratio_idc: u8,
    pub sar_width: u32,
    pub sar_height: u32,
    pub num_units_in_tick: u32,
    pub time_scale: u32,
}

/// The bit fields of [`EncPictureParameterBufferH264`].
#[derive(Copy, Clone, Debug, PartialEq, Eq, Structural)]
pub struct H264EncPicFields {
    pub idr_pic_flag: bool,
    pub reference_pic_flag: bool,
    pub entropy_coding_mode_flag: bool,
    pub weighted_pred_flag: bool,
    pub weighted_bipred_idc: u8,
    pub constrained_intra_pred_flag: bool,
    pub transform_8x8_mode_flag: bool,
    pub deblocking_filter_control_present_flag: bool,
    pub redundant_pic_cnt_present_flag: bool,
    pub pic_order_present_flag: bool,
    pub pic_scaling_matrix_present_flag: bool,
}

/// The parameters of an encoded picture.
#[derive(Clone, Debug)]
pub struct EncPictureParameterBufferH264 {
    /// Where the reconstructed picture goes.
    pub curr_pic: PictureH264,
    pub reference_frames: [PictureH264; 16],
    /// The id of the buffer for the coded picture.
    pub coded_buf: u32,
    pub pic_parameter_set_id: u8,
    pub seq_parameter_set_id: u8,
    pub last_picture: u8,
    pub frame_num: u16,
    pub pic_init_qp: u8,
    pub num_ref_idx_l0_active_minus1: u8,
    pub num_ref_idx_l1_active_minus1: u8,
    pub chroma_qp_index_offset: i8,
    pub second_chroma_qp_index_offset: i8,
    pub pic_fields: H264EncPicFields,
}

/// The parameters of an encoded slice.
#[derive(Clone, Debug)]
pub struct EncSliceParameterBufferH264 {
    pub macroblock_address: u32,
    pub num_macroblocks: u32,
    pub macroblock_info: u32,
    pub slice_type: u8,
    pub pic_parameter_set_id: u8,
    pub idr_pic_id: u16,
    pub pic_order_cnt_lsb: u16,
    pub delta_pic_order_cnt_bottom: i32,
    pub delta_pic_order_cnt: [i32; 2],
    pub direct_spatial_mv_pred_flag: bool,
    pub num_ref_idx_active_override_flag: bool,
    pub num_ref_idx_l0_active_minus1: u8,
    pub num_ref_idx_l1_active_minus1: u8,
    pub ref_pic_list_0: [PictureH264; 32],
    pub ref_pic_list_1: [PictureH264; 32],
    pub luma_log2_weight_denom: u8,
    pub chroma_log2_weight_denom: u8,
    pub luma_weight_l0_flag: u8,
    pub luma_weight_l0: [i16; 32],
    pub luma_offset_l0: [i16; 32],
    pub chroma_weight_l0_flag: u8,
    pub chroma_weight_l0: [[i16; 2]; 32],
    pub chroma_offset_l0: [[i16; 2]; 32],
    pub luma_weight_l1_flag: u8,
    pub luma_weight_l1: [i16; 32],
    pub luma_offset_l1: [i16; 32],
    pub chroma_weight_l1_flag: u8,
    pub chroma_weight_l1: [[i16; 2]; 32],
    pub chroma_offset_l1: [[i16; 2]; 32],
    pub cabac_init_idc: u8,
    pub slice_qp_delta: i8,
    pub disable_deblocking_filter_idc: u8,
    pub slice_alpha_c0_offset_div2: i8,
    pub slice_beta_offset_div2: i8,
}

/// Which header a packed one is.
#[derive(Copy, Clone, Debug, PartialEq, Eq, Structural)]
pub enum EncPackedHeaderType {
    Sequence,
    Picture,
}

/// What goes in front of the bytes of a packed header.
#[derive(Copy, Clone, Debug, PartialEq, Eq, Structural)]
pub struct EncPackedHeaderParameter {
    pub kind: EncPackedHeaderType,
    pub bit_length: u32,
    pub has_emulation_bytes: bool,
}

/// The bit fields of [`EncMiscParameterRateControl`].
#[derive(Copy, Clone, Debug, PartialEq, Eq, Structural)]
pub struct RcFlags {
    /// Starts the rate controller anew.
    pub reset: bool,
    pub disable_frame_skip: bool,
    pub disable_bit_stuffing: bool,
    pub mb_rate_control: u32,
    pub temporal_id: u32,
    pub cfs_i_frames: bool,
    pub enable_parallel_brc: bool,
    pub enable_dynamic_scaling: bool,
    pub frame_tolerance_mode: u32,
}

/// The rate control.
#[derive(Copy, Clone, Debug, PartialEq, Eq, Structural)]
pub struct EncMiscParameterRateControl {
    pub bits_per_second: u32,
    pub target_percentage: u32,
    /// In milliseconds.
    pub window_size: u32,
    pub initial_qp: u32,
    pub min_qp: u32,
    pub basic_unit_size: u32,
    pub rc_flags: RcFlags,
    pub icq_quality_factor: u32,
    pub max_qp: u32,
    pub quality_factor: u32,
    pub target_frame_size: u32,
}

/// The frame rate.
#[derive(Copy, Clone, Debug, PartialEq, Eq, Structural)]
pub struct EncMiscParameterFrameRate {
    pub framerate: u32,
    pub framerate_flags: u32,
}

/// The encoding parameters that are not specific to a codec.
#[derive(Copy, Clone, Debug, PartialEq, Eq, Structural)]
pub enum EncMiscParameter {
    RateControl(EncMiscParameterRateControl),
    FrameRate(EncMiscParameterFrameRate),
}

/// Part of a surface.
#[derive(Copy, Clone, Debug, PartialEq, Eq, Structural)]
pub struct Rectangle {
    pub x: i16,
    pub y: i16,
    pub width: u16,
    pub height: u16,
}

/// What the video processor is told of the samples on one side.
#[derive(Copy, Clone, Debug, PartialEq, Eq, Structural)]
pub struct ProcColorProperties {
    pub chroma_sample_location: u8,
    pub color_range: u8,
    pub colour_primaries: u8,
    pub transfer_characteristics: u8,
    pub matrix_coefficients: u8,
}

/// One run of the video processor.
#[derive(Clone, Debug)]
pub struct ProcPipelineParameterBuffer {
    /// The id of the surface to read.
    pub surface: u32,
    pub surface_region: Option<Rectangle>,
    pub surface_color_standard: u32,
    pub output_region: Option<Rectangle>,
    pub output_background_color: u32,
    pub output_color_standard: u32,
    pub pipeline_flags: u32,
    pub filter_flags: u32,
    pub filters: Option<Vec<u32>>,
    pub forward_references: Option<Vec<u32>>,
    pub backward_references: Option<Vec<u32>>,
    pub rotation_state: u32,
    /// Flags, a global alpha and the bounds of a luma key.
    pub blend_state: Option<(u32, u32, u32, u32)>,
    pub mirror_state: u32,
    pub additional_outputs: Option<Vec<u32>>,
    pub input_surface_flag: u32,
    pub output_surface_flag: u32,
    pub input_color_properties: ProcColorProperties,
    pub output_color_properties: ProcColorProperties,
    pub processing_mode: u32,
    /// The bytes of the metadata of high dynamic range.
    pub output_hdr_metadata: Option<Vec<u8>>,
}

/// A buffer to render a picture with.
#[derive(Clone, Debug)]
pub enum BufferType {
    EncSequenceParameter(EncSequenceParameterBufferH264),
    EncPictureParameter(EncPictureParameterBufferH264),
    EncSliceParameter(EncSliceParameterBufferH264),
    EncPackedHeaderParameter(EncPackedHeaderParameter),
    EncPackedHeaderData(Vec<u8>),
    EncMiscParameter(EncMiscParameter),
    ProcPipelineParameter(ProcPipelineParameterBuffer),
}

} // verus!
