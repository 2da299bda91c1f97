//! The H.264 parameter sets and the slice header, and the builders that fill them.

use std::rc::Rc;

use vstd::prelude::*;

use crate::codec::h264::golomb;

verus! {

/// A level. Its number is ten times its name, but for 1b.
#[allow(non_camel_case_types)]
#[derive(Copy, Clone, Debug, PartialEq, Eq, Structural)]
pub enum Level {
    L1,
    L1B,
    L1_1,
    L1_2,
    L1_3,
    L2_0,
    L2_1,
    L2_2,
    L3,
    L3_1,
    L3_2,
    L4,
    L4_1,
    L4_2,
    L5,
    L5_1,
    L5_2,
    L6,
    L6_1,
    L6_2,
}

impl Level {
    /// The number that `level_idc` gives it.
    pub open spec fn number(self) -> u8 {
        match self {
            Level::L1 => 10,
            Level::L1B => 9,
            Level::L1_1 => 11,
            Level::L1_2 => 12,
            Level::L1_3 => 13,
            Level::L2_0 => 20,
            Level::L2_1 => 21,
            Level::L2_2 => 22,
            Level::L3 => 30,
            Level::L3_1 => 31,
            Level::L3_2 => 32,
            Level::L4 => 40,
            Level::L4_1 => 41,
            Level::L4_2 => 42,
            Level::L5 => 50,
            Level::L5_1 => 51,
            Level::L5_2 => 52,
            Level::L6 => 60,
            Level::L6_1 => 61,
            Level::L6_2 => 62,
        }
    }

    /// Returns that number.
    pub fn value(self) -> (r: u8)
        ensures
            r == self.number(),
    {
        match self {
            Level::L1 => 10,
            Level::L1B => 9,
            Level::L1_1 => 11,
            Level::L1_2 => 12,
            Level::L1_3 => 13,
            Level::L2_0 => 20,
            Level::L2_1 => 21,
            Level::L2_2 => 22,
            Level::L3 => 30,
            Level::L3_1 => 31,
            Level::L3_2 => 32,
            Level::L4 => 40,
            Level::L4_1 => 41,
            Level::L4_2 => 42,
            Level::L5 => 50,
            Level::L5_1 => 51,
            Level::L5_2 => 52,
            Level::L6 => 60,
            Level::L6_1 => 61,
            Level::L6_2 => 62,
        }
    }
}

/// A profile.
#[allow(non_camel_case_types)]
#[derive(Copy, Clone, Debug, PartialEq, Eq, Structural)]
pub enum Profile {
    Baseline,
    Main,
    Extended,
    High,
    High10,
    High422P,
}

impl Profile {
    /// The number that `profile_idc` gives it.
    pub open spec fn number(self) -> u8 {
        match self {
            Profile::Baseline => 66,
            Profile::Main => 77,
            Profile::Extended => 88,
            Profile::High => 100,
            Profile::High10 => 110,
            Profile::High422P => 122,
        }
    }

    /// Returns that number.
    pub fn value(self) -> (r: u8)
        ensures
            r == self.number(),
    {
        match self {
            Profile::Baseline => 66,
            Profile::Main => 77,
            Profile::Extended => 88,
            Profile::High => 100,
            Profile::High10 => 110,
            Profile::High422P => 122,
        }
    }
}

/// A NAL unit type.
#[allow(non_camel_case_types)]
#[derive(Copy, Clone, Debug, PartialEq, Eq, Structural)]
pub enum NaluType {
    Slice,
    SliceIdr,
    Sps,
    Pps,
}

impl NaluType {
    /// The number that the NAL unit header gives it.
    pub open spec fn number(self) -> u8 {
        match self {
            NaluType::Slice => 1,
            NaluType::SliceIdr => 5,
            NaluType::Sps => 7,
            NaluType::Pps => 8,
        }
    }

    /// Returns that number.
    pub fn value(self) -> (r: u8)
        ensures
            r == self.number(),
    {
        match self {
            NaluType::Slice => 1,
            NaluType::SliceIdr => 5,
            NaluType::Sps => 7,
            NaluType::Pps => 8,
        }
    }
}

/// A slice type.
#[allow(non_camel_case_types)]
#[derive(Copy, Clone, Debug, PartialEq, Eq, Structural)]
pub enum SliceType {
    P,
    B,
    I,
    Sp,
    Si,
}

impl SliceType {
    /// The number that the slice header gives it.
    pub open spec fn number(self) -> u8 {
        match self {
            SliceType::P => 0,
            SliceType::B => 1,
            SliceType::I => 2,
            SliceType::Sp => 3,
            SliceType::Si => 4,
        }
    }

    /// Returns that number.
    pub fn value(self) -> (r: u8)
        ensures
            r == self.number(),
    {
        match self {
            SliceType::P => 0,
            SliceType::B => 1,
            SliceType::I => 2,
            SliceType::Sp => 3,
            SliceType::Si => 4,
        }
    }
}

/// The default 4x4 scaling list of intra prediction, in zig-zag order.
pub const DEFAULT_4X4_INTRA: [u8; 16] = [
    6, 13, 13, 20, 20, 20, 28, 28, 28, 28, 32, 32, 32, 37, 37, 42,
];

/// The default 4x4 scaling list of inter prediction, in zig-zag order.
pub const DEFAULT_4X4_INTER: [u8; 16] = [
    10, 14, 14, 20, 20, 20, 24, 24, 24, 24, 27, 27, 27, 30, 30, 34,
];

/// The default 8x8 scaling list of intra prediction, in zig-zag order.
pub const DEFAULT_8X8_INTRA: [u8; 64] = [
    6, 10, 10, 13, 11, 13, 16, 16, 16, 16, 18, 18, 18, 18, 18, 23,
    23, 23, 23, 23, 23, 25, 25, 25, 25, 25, 25, 25, 27, 27, 27, 27,
    27, 27, 27, 27, 29, 29, 29, 29, 29, 29, 29, 31, 31, 31, 31, 31,
    31, 33, 33, 33, 33, 33, 36, 36, 36, 36, 38, 38, 38, 40, 40, 42,
];

/// The default 8x8 scaling list of inter prediction, in zig-zag order.
pub const DEFAULT_8X8_INTER: [u8; 64] = [
    9, 13, 13, 15, 13, 15, 17, 17, 17, 17, 19, 19, 19, 19, 19, 21,
    21, 21, 21, 21, 21, 22, 22, 22, 22, 22, 22, 22, 24, 24, 24, 24,
    24, 24, 24, 24, 25, 25, 25, 25, 25, 25, 25, 27, 27, 27, 27, 27,
    27, 28, 28, 28, 28, 28, 30, 30, 30, 30, 32, 32, 32, 33, 33, 35,
];

/// The hypothetical reference decoder's parameters.
#[derive(Clone, Debug)]
pub struct HrdParams {
    /// At most 31.
    pub cpb_cnt_minus1: u8,
    pub bit_rate_scale: u8,
    pub cpb_size_scale: u8,
    pub bit_rate_value_minus1: [u32; 32],
    pub cpb_size_value_minus1: [u32; 32],
    pub cbr_flag: [bool; 32],
    pub initial_cpb_removal_delay_length_minus1: u8,
    pub cpb_removal_delay_length_minus1: u8,
    pub dpb_output_delay_length_minus1: u8,
    pub time_offset_length: u8,
}

impl HrdParams {
    /// All parameters zero.
    pub open spec fn blank(self) -> bool {
        &&& self.cpb_cnt_minus1 == 0
        &&& self.bit_rate_scale == 0
        &&& self.cpb_size_scale == 0
        &&& forall|i: int| 0 <= i < 32 ==> #[trigger] self.bit_rate_value_minus1[i] == 0
        &&& forall|i: int| 0 <= i < 32 ==> #[trigger] self.cpb_size_value_minus1[i] == 0
        &&& forall|i: int| 0 <= i < 32 ==> !#[trigger] self.cbr_flag[i]
        &&& self.initial_cpb_removal_delay_length_minus1 == 0
        &&& self.cpb_removal_delay_length_minus1 == 0
        &&& self.dpb_output_delay_length_minus1 == 0
        &&& self.time_offset_length == 0
    }

    /// Returns a blank one.
    pub fn new() -> (r: Self)
        ensures
            r.blank(),
    {
        Self {
            cpb_cnt_minus1: 0,
            bit_rate_scale: 0,
            cpb_size_scale: 0,
            bit_rate_value_minus1: [0u32; 32],
            cpb_size_value_minus1: [0u32; 32],
            cbr_flag: [false; 32],
            initial_cpb_removal_delay_length_minus1: 0,
            cpb_removal_delay_length_minus1: 0,
            dpb_output_delay_length_minus1: 0,
            time_offset_length: 0,
        }
    }
}

/// The video usability information.
#[derive(Clone, Debug)]
pub struct VuiParams {
    pub aspect_ratio_info_present_flag: bool,
    /// 255 means that the sample aspect ratio is spelled out.
    pub aspect_ratio_idc: u8,
    pub sar_width: u16,
    pub sar_height: u16,
    pub overscan_info_present_flag: bool,
    pub overscan_appropriate_flag: bool,
    pub video_signal_type_present_flag: bool,
    /// 5 is unspecified.
    pub video_format: u8,
    pub video_full_range_flag: bool,
    pub colour_description_present_flag: bool,
    /// 2 is unspecified.
    pub colour_primaries: u8,
    /// 2 is unspecified.
    pub transfer_characteristics: u8,
    /// 2 is unspecified.
    pub matrix_coefficients: u8,
    pub chroma_loc_info_present_flag: bool,
    pub chroma_sample_loc_type_top_field: u8,
    pub chroma_sample_loc_type_bottom_field: u8,
    pub timing_info_present_flag: bool,
    pub num_units_in_tick: u32,
    pub time_scale: u32,
    pub fixed_frame_rate_flag: bool,
    pub nal_hrd_parameters_present_flag: bool,
    pub nal_hrd_parameters: HrdParams,
    pub vcl_hrd_parameters_present_flag: bool,
    pub vcl_hrd_parameters: HrdParams,
    pub low_delay_hrd_flag: bool,
    pub pic_struct_present_flag: bool,
    pub bitstream_restriction_flag: bool,
    /// Set where no restriction is stated.
    pub motion_vectors_over_pic_boundaries_flag: bool,
    /// 2 where no restriction is stated.
    pub max_bytes_per_pic_denom: u32,
    /// 1 where no restriction is stated.
    pub max_bits_per_mb_denom: u32,
    /// 16 where no restriction is stated.
    pub log2_max_mv_length_horizontal: u32,
    /// 16 where no restriction is stated.
    pub log2_max_mv_length_vertical: u32,
    pub max_num_reorder_frames: u32,
    pub max_dec_frame_buffering: u32,
}

impl VuiParams {
    /// Nothing present, and every field as a decoder infers it then.
    pub open spec fn blank(self) -> bool {
        &&& !self.aspect_ratio_info_present_flag
        &&& self.aspect_ratio_idc == 0
        &&& self.sar_width == 0
        &&& self.sar_height == 0
        &&& !self.overscan_info_present_flag
        &&& !self.overscan_appropriate_flag
        &&& !self.video_signal_type_present_flag
        &&& self.video_format == 5
        &&& !self.video_full_range_flag
        &&& !self.colour_description_present_flag
        &&& self.colour_primaries == 2
        &&& self.transfer_characteristics == 2
        &&& self.matrix_coefficients == 2
        &&& !self.chroma_loc_info_present_flag
        &&& self.chroma_sample_loc_type_top_field == 0
        &&& self.chroma_sample_loc_type_bottom_field == 0
        &&& !self.timing_info_present_flag
        &&& self.num_units_in_tick == 0
        &&& self.time_scale == 0
        &&& !self.fixed_frame_rate_flag
        &&& !self.nal_hrd_parameters_present_flag
        &&& self.nal_hrd_parameters.blank()
        &&& !self.vcl_hrd_parameters_present_flag
        &&& self.vcl_hrd_parameters.blank()
        &&& !self.low_delay_hrd_flag
        &&& !self.pic_struct_present_flag
        &&& !self.bitstream_restriction_flag
        &&& self.motion_vectors_over_pic_boundaries_flag
        &&& self.max_bytes_per_pic_denom == 2
        &&& self.max_bits_per_mb_denom == 1
        &&& self.log2_max_mv_length_horizontal == 16
        &&& self.log2_max_mv_length_vertical == 16
        &&& self.max_num_reorder_frames == 0
        &&& self.max_dec_frame_buffering == 0
    }

    /// Returns a blank one.
    pub fn new() -> (r: Self)
        ensures
            r.blank(),
    {
        Self {
            aspect_ratio_info_present_flag: false,
            aspect_ratio_idc: 0,
            sar_width: 0,
            sar_height: 0,
            overscan_info_present_flag: false,
            overscan_appropriate_flag: false,
            video_signal_type_present_flag: false,
            video_format: 5,
            video_full_range_flag: false,
            colour_description_present_flag: false,
            colour_primaries: 2,
            transfer_characteristics: 2,
            matrix_coefficients: 2,
            chroma_loc_info_present_flag: false,
            chroma_sample_loc_type_top_field: 0,
            chroma_sample_loc_type_bottom_field: 0,
            timing_info_present_flag: false,
            num_units_in_tick: 0,
            time_scale: 0,
            fixed_frame_rate_flag: false,
            nal_hrd_parameters_present_flag: false,
            nal_hrd_parameters: HrdParams::new(),
            vcl_hrd_parameters_present_flag: false,
            vcl_hrd_parameters: HrdParams::new(),
            low_delay_hrd_flag: false,
            pic_struct_present_flag: false,
            bitstream_restriction_flag: false,
            motion_vectors_over_pic_boundaries_flag: true,
            max_bytes_per_pic_denom: 2,
            max_bits_per_mb_denom: 1,
            log2_max_mv_length_horizontal: 16,
            log2_max_mv_length_vertical: 16,
            max_num_reorder_frames: 0,
            max_dec_frame_buffering: 0,
        }
    }
}

/// A sequence parameter set.
#[derive(Clone, Debug)]
pub struct Sps {
    /// The id of this parameter set.
    pub seq_parameter_set_id: u8,
    /// The profile, by number.
    pub profile_idc: u8,
    pub constraint_set0_flag: bool,
    pub constraint_set1_flag: bool,
    pub constraint_set2_flag: bool,
    pub constraint_set3_flag: bool,
    pub constraint_set4_flag: bool,
    pub constraint_set5_flag: bool,
    /// The level.
    pub level_idc: Level,
    /// 0 is monochrome, 1 is 4:2:0, 2 is 4:2:2, 3 is 4:4:4.
    pub chroma_format_idc: u8,
    pub separate_colour_plane_flag: bool,
    pub bit_depth_luma_minus8: u8,
    pub bit_depth_chroma_minus8: u8,
    pub qpprime_y_zero_transform_bypass_flag: bool,
    pub seq_scaling_matrix_present_flag: bool,
    /// All zero where a list is not present.
    pub scaling_lists_4x4: [[u8; 16]; 6],
    /// All zero where a list is not present.
    pub scaling_lists_8x8: [[u8; 64]; 6],
    pub log2_max_frame_num_minus4: u8,
    pub pic_order_cnt_type: u8,
    pub log2_max_pic_order_cnt_lsb_minus4: u8,
    pub delta_pic_order_always_zero_flag: bool,
    pub offset_for_non_ref_pic: i32,
    pub offset_for_top_to_bottom_field: i32,
    pub num_ref_frames_in_pic_order_cnt_cycle: u8,
    pub offset_for_ref_frame: [i32; 255],
    pub max_num_ref_frames: u8,
    pub gaps_in_frame_num_value_allowed_flag: bool,
    pub pic_width_in_mbs_minus1: u16,
    pub pic_height_in_map_units_minus1: u16,
    pub frame_mbs_only_flag: bool,
    pub mb_adaptive_frame_field_flag: bool,
    pub direct_8x8_inference_flag: bool,
    pub frame_cropping_flag: bool,
    pub frame_crop_left_offset: u32,
    pub frame_crop_right_offset: u32,
    pub frame_crop_top_offset: u32,
    pub frame_crop_bottom_offset: u32,
    pub vui_parameters_present_flag: bool,
    /// Read only when present.
    pub vui_parameters: VuiParams,
}

impl Sps {
    /// Every field zero, no usability information.
    pub open spec fn blank(self) -> bool {
        &&& self.seq_parameter_set_id == 0
        &&& self.profile_idc == 0
        &&& !self.constraint_set0_flag
        &&& !self.constraint_set1_flag
        &&& !self.constraint_set2_flag
        &&& !self.constraint_set3_flag
        &&& !self.constraint_set4_flag
        &&& !self.constraint_set5_flag
        &&& self.level_idc == Level::L1
        &&& self.chroma_format_idc == 0
        &&& !self.separate_colour_plane_flag
        &&& self.bit_depth_luma_minus8 == 0
        &&& self.bit_depth_chroma_minus8 == 0
        &&& !self.qpprime_y_zero_transform_bypass_flag
        &&& !self.seq_scaling_matrix_present_flag
        &&& forall|i: int, j: int|
            0 <= i < 6 && 0 <= j < 16 ==> #[trigger] self.scaling_lists_4x4[i][j] == 0
        &&& forall|i: int, j: int|
            0 <= i < 6 && 0 <= j < 64 ==> #[trigger] self.scaling_lists_8x8[i][j] == 0
        &&& self.log2_max_frame_num_minus4 == 0
        &&& self.pic_order_cnt_type == 0
        &&& self.log2_max_pic_order_cnt_lsb_minus4 == 0
        &&& !self.delta_pic_order_always_zero_flag
        &&& self.offset_for_non_ref_pic == 0
        &&& self.offset_for_top_to_bottom_field == 0
        &&& self.num_ref_frames_in_pic_order_cnt_cycle == 0
        &&& forall|i: int| 0 <= i < 255 ==> #[trigger] self.offset_for_ref_frame[i] == 0
        &&& self.max_num_ref_frames == 0
        &&& !self.gaps_in_frame_num_value_allowed_flag
        &&& self.pic_width_in_mbs_minus1 == 0
        &&& self.pic_height_in_map_units_minus1 == 0
        &&& !self.frame_mbs_only_flag
        &&& !self.mb_adaptive_frame_field_flag
        &&& !self.direct_8x8_inference_flag
        &&& !self.frame_cropping_flag
        &&& self.frame_crop_left_offset == 0
        &&& self.frame_crop_right_offset == 0
        &&& self.frame_crop_top_offset == 0
        &&& self.frame_crop_bottom_offset == 0
        &&& !self.vui_parameters_present_flag
        &&& self.vui_parameters.blank()
    }

    /// Returns a blank one.
    pub fn new() -> (r: Self)
        ensures
            r.blank(),
    {
        Self {
            seq_parameter_set_id: 0,
            profile_idc: 0,
            constraint_set0_flag: false,
            constraint_set1_flag: false,
            constraint_set2_flag: false,
            constraint_set3_flag: false,
            constraint_set4_flag: false,
            constraint_set5_flag: false,
            level_idc: Level::L1,
            chroma_format_idc: 0,
            separate_colour_plane_flag: false,
            bit_depth_luma_minus8: 0,
            bit_depth_chroma_minus8: 0,
            qpprime_y_zero_transform_bypass_flag: false,
            seq_scaling_matrix_present_flag: false,
            scaling_lists_4x4: [[0u8; 16]; 6],
            scaling_lists_8x8: [[0u8; 64]; 6],
            log2_max_frame_num_minus4: 0,
            pic_order_cnt_type: 0,
            log2_max_pic_order_cnt_lsb_minus4: 0,
            delta_pic_order_always_zero_flag: false,
            offset_for_non_ref_pic: 0,
            offset_for_top_to_bottom_field: 0,
            num_ref_frames_in_pic_order_cnt_cycle: 0,
            offset_for_ref_frame: [0i32; 255],
            max_num_ref_frames: 0,
            gaps_in_frame_num_value_allowed_flag: false,
            pic_width_in_mbs_minus1: 0,
            pic_height_in_map_units_minus1: 0,
            frame_mbs_only_flag: false,
            mb_adaptive_frame_field_flag: false,
            direct_8x8_inference_flag: false,
            frame_cropping_flag: false,
            frame_crop_left_offset: 0,
            frame_crop_right_offset: 0,
            frame_crop_top_offset: 0,
            frame_crop_bottom_offset: 0,
            vui_parameters_present_flag: false,
            vui_parameters: VuiParams::new(),
        }
    }
}

/// A picture parameter set.
#[derive(Clone, Debug)]
pub struct Pps {
    /// The id of this parameter set.
    pub pic_parameter_set_id: u8,
    /// The id of the sequence parameter set it refers to.
    pub seq_parameter_set_id: u8,
    pub entropy_coding_mode_flag: bool,
    pub bottom_field_pic_order_in_frame_present_flag: bool,
    pub num_slice_groups_minus1: u32,
    pub num_ref_idx_l0_default_active_minus1: u8,
    pub num_ref_idx_l1_default_active_minus1: u8,
    pub weighted_pred_flag: bool,
    pub weighted_bipred_idc: u8,
    pub pic_init_qp_minus26: i8,
    pub pic_init_qs_minus26: i8,
    pub chroma_qp_index_offset: i8,
    pub deblocking_filter_control_present_flag: bool,
    pub constrained_intra_pred_flag: bool,
    pub redundant_pic_cnt_present_flag: bool,
    pub transform_8x8_mode_flag: bool,
    pub pic_scaling_matrix_present_flag: bool,
    /// All zero where a list is not present.
    pub scaling_lists_4x4: [[u8; 16]; 6],
    /// All zero where a list is not present.
    pub scaling_lists_8x8: [[u8; 64]; 6],
    pub second_chroma_qp_index_offset: i8,
    /// The sequence parameter set it refers to.
    pub sps: Rc<Sps>,
}

impl Pps {
    /// Every field zero, for the sequence parameter set `sps`.
    pub open spec fn blank(self, sps: Sps) -> bool {
        &&& self.pic_parameter_set_id == 0
        &&& self.seq_parameter_set_id == sps.seq_parameter_set_id
        &&& !self.entropy_coding_mode_flag
        &&& !self.bottom_field_pic_order_in_frame_present_flag
        &&& self.num_slice_groups_minus1 == 0
        &&& self.num_ref_idx_l0_default_active_minus1 == 0
        &&& self.num_ref_idx_l1_default_active_minus1 == 0
        &&& !self.weighted_pred_flag
        &&& self.weighted_bipred_idc == 0
        &&& self.pic_init_qp_minus26 == 0
        &&& self.pic_init_qs_minus26 == 0
        &&& self.chroma_qp_index_offset == 0
        &&& !self.deblocking_filter_control_present_flag
        &&& !self.constrained_intra_pred_flag
        &&& !self.redundant_pic_cnt_present_flag
        &&& !self.transform_8x8_mode_flag
        &&& !self.pic_scaling_matrix_present_flag
        &&& forall|i: int, j: int|
            0 <= i < 6 && 0 <= j < 16 ==> #[trigger] self.scaling_lists_4x4[i][j] == 0
        &&& forall|i: int, j: int|
            0 <= i < 6 && 0 <= j < 64 ==> #[trigger] self.scaling_lists_8x8[i][j] == 0
        &&& self.second_chroma_qp_index_offset == 0
        &&& *self.sps == sps
    }

    /// Returns a blank one.
    pub fn new(sps: Rc<Sps>) -> (r: Self)
        ensures
            r.blank(*sps),
    {
        Self {
            pic_parameter_set_id: 0,
            seq_parameter_set_id: sps.seq_parameter_set_id,
            entropy_coding_mode_flag: false,
            bottom_field_pic_order_in_frame_present_flag: false,
            num_slice_groups_minus1: 0,
            num_ref_idx_l0_default_active_minus1: 0,
            num_ref_idx_l1_default_active_minus1: 0,
            weighted_pred_flag: false,
            weighted_bipred_idc: 0,
            pic_init_qp_minus26: 0,
            pic_init_qs_minus26: 0,
            chroma_qp_index_offset: 0,
            deblocking_filter_control_present_flag: false,
            constrained_intra_pred_flag: false,
            redundant_pic_cnt_present_flag: false,
            transform_8x8_mode_flag: false,
            pic_scaling_matrix_present_flag: false,
            scaling_lists_4x4: [[0u8; 16]; 6],
            scaling_lists_8x8: [[0u8; 64]; 6],
            second_chroma_qp_index_offset: 0,
            sps: sps,
        }
    }
}

/// One step of a reference list modification.
#[derive(Copy, Clone, Debug)]
pub struct RefPicListModification {
    pub modification_of_pic_nums_idc: u8,
    pub abs_diff_pic_num_minus1: u32,
    pub long_term_pic_num: u32,
}

/// The weights of weighted prediction.
#[derive(Clone, Debug)]
pub struct PredWeightTable {
    /// At most 7.
    pub luma_log2_weight_denom: u8,
    /// At most 7.
    pub chroma_log2_weight_denom: u8,
    pub luma_weight_l0: [i16; 32],
    pub luma_offset_l0: [i8; 32],
    pub chroma_weight_l0: [[i16; 2]; 32],
    pub chroma_offset_l0: [[i8; 2]; 32],
    pub luma_weight_l1: [i16; 32],
    pub luma_offset_l1: [i8; 32],
    pub chroma_weight_l1: [[i16; 2]; 32],
    pub chroma_offset_l1: [[i8; 2]; 32],
}

impl PredWeightTable {
    /// All weights zero.
    pub open spec fn blank(self) -> bool {
        &&& self.luma_log2_weight_denom == 0
        &&& self.chroma_log2_weight_denom == 0
        &&& forall|i: int| 0 <= i < 32 ==> #[trigger] self.luma_weight_l0[i] == 0
        &&& forall|i: int| 0 <= i < 32 ==> #[trigger] self.luma_offset_l0[i] == 0
        &&& forall|i: int, j: int|
            0 <= i < 32 && 0 <= j < 2 ==> #[trigger] self.chroma_weight_l0[i][j] == 0
        &&& forall|i: int, j: int|
            0 <= i < 32 && 0 <= j < 2 ==> #[trigger] self.chroma_offset_l0[i][j] == 0
        &&& forall|i: int| 0 <= i < 32 ==> #[trigger] self.luma_weight_l1[i] == 0
        &&& forall|i: int| 0 <= i < 32 ==> #[trigger] self.luma_offset_l1[i] == 0
        &&& forall|i: int, j: int|
            0 <= i < 32 && 0 <= j < 2 ==> #[trigger] self.chroma_weight_l1[i][j] == 0
        &&& forall|i: int, j: int|
            0 <= i < 32 && 0 <= j < 2 ==> #[trigger] self.chroma_offset_l1[i][j] == 0
    }

    /// Returns a blank one.
    pub fn new() -> (r: Self)
        ensures
            r.blank(),
    {
        Self {
            luma_log2_weight_denom: 0,
            chroma_log2_weight_denom: 0,
            luma_weight_l0: [0i16; 32],
            luma_offset_l0: [0i8; 32],
            chroma_weight_l0: [[0i16; 2]; 32],
            chroma_offset_l0: [[0i8; 2]; 32],
            luma_weight_l1: [0i16; 32],
            luma_offset_l1: [0i8; 32],
            chroma_weight_l1: [[0i16; 2]; 32],
            chroma_offset_l1: [[0i8; 2]; 32],
        }
    }
}

/// How many long term frame indices there may be.
#[derive(Copy, Clone, Debug, PartialEq, Eq, Structural)]
pub enum MaxLongTermFrameIdx {
    /// None.
    NoLongTermFrameIndices,
    /// Up to this one.
    Idx(u32),
}

impl MaxLongTermFrameIdx {
    /// `max_long_term_frame_idx_plus1`.
    pub open spec fn plus1(self) -> int {
        match self {
            MaxLongTermFrameIdx::NoLongTermFrameIndices => 0,
            MaxLongTermFrameIdx::Idx(idx) => idx + 1,
        }
    }

    /// Returns `max_long_term_frame_idx_plus1`.
    pub fn to_value_plus1(self) -> (r: u32)
        requires
            self.plus1() <= u32::MAX,
        ensures
            r == self.plus1(),
    {
        match self {
            MaxLongTermFrameIdx::NoLongTermFrameIndices => 0,
            MaxLongTermFrameIdx::Idx(idx) => idx + 1,
        }
    }
}

/// One memory management control operation.
#[derive(Copy, Clone, Debug)]
pub struct RefPicMarkingInner {
    pub memory_management_control_operation: u8,
    pub difference_of_pic_nums_minus1: u32,
    pub long_term_pic_num: u32,
    pub long_term_frame_idx: u32,
    pub max_long_term_frame_idx: MaxLongTermFrameIdx,
}

/// The reference picture marking of a slice.
#[derive(Clone, Debug)]
pub struct RefPicMarking {
    pub no_output_of_prior_pics_flag: bool,
    pub long_term_reference_flag: bool,
    pub adaptive_ref_pic_marking_mode_flag: bool,
    pub inner: Vec<RefPicMarkingInner>,
}

impl RefPicMarking {
    /// No marking.
    pub open spec fn blank(self) -> bool {
        &&& !self.no_output_of_prior_pics_flag
        &&& !self.long_term_reference_flag
        &&& !self.adaptive_ref_pic_marking_mode_flag
        &&& self.inner@.len() == 0
    }

    /// Returns a blank one.
    pub fn new() -> (r: Self)
        ensures
            r.blank(),
    {
        Self {
            no_output_of_prior_pics_flag: false,
            long_term_reference_flag: false,
            adaptive_ref_pic_marking_mode_flag: false,
            inner: Vec::new(),
        }
    }
}

/// A slice header.
#[derive(Clone, Debug)]
pub struct SliceHeader {
    pub first_mb_in_slice: u32,
    pub slice_type: SliceType,
    pub pic_parameter_set_id: u8,
    pub colour_plane_id: u8,
    pub frame_num: u16,
    pub field_pic_flag: bool,
    pub bottom_field_flag: bool,
    pub idr_pic_id: u16,
    pub pic_order_cnt_lsb: u16,
    pub delta_pic_order_cnt_bottom: i32,
    pub delta_pic_order_cnt: [i32; 2],
    pub redundant_pic_cnt: u8,
    pub direct_spatial_mv_pred_flag: bool,
    pub num_ref_idx_active_override_flag: bool,
    pub num_ref_idx_l0_active_minus1: u8,
    pub num_ref_idx_l1_active_minus1: u8,
    pub ref_pic_list_modification_flag_l0: bool,
    pub ref_pic_list_modification_l0: Vec<RefPicListModification>,
    pub ref_pic_list_modification_flag_l1: bool,
    pub ref_pic_list_modification_l1: Vec<RefPicListModification>,
    pub pred_weight_table: PredWeightTable,
    pub dec_ref_pic_marking: RefPicMarking,
    pub cabac_init_idc: u8,
    pub slice_qp_delta: i8,
    pub sp_for_switch_flag: bool,
    pub slice_qs_delta: i8,
    pub disable_deblocking_filter_idc: u8,
    pub slice_alpha_c0_offset_div2: i8,
    pub slice_beta_offset_div2: i8,
}

impl SliceHeader {
    /// Every field zero, every list empty.
    pub open spec fn blank(self) -> bool {
        &&& self.first_mb_in_slice == 0
        &&& self.slice_type == SliceType::P
        &&& self.pic_parameter_set_id == 0
        &&& self.colour_plane_id == 0
        &&& self.frame_num == 0
        &&& !self.field_pic_flag
        &&& !self.bottom_field_flag
        &&& self.idr_pic_id == 0
        &&& self.pic_order_cnt_lsb == 0
        &&& self.delta_pic_order_cnt_bottom == 0
        &&& forall|i: int| 0 <= i < 2 ==> #[trigger] self.delta_pic_order_cnt[i] == 0
        &&& self.redundant_pic_cnt == 0
        &&& !self.direct_spatial_mv_pred_flag
        &&& !self.num_ref_idx_active_override_flag
        &&& self.num_ref_idx_l0_active_minus1 == 0
        &&& self.num_ref_idx_l1_active_minus1 == 0
        &&& !self.ref_pic_list_modification_flag_l0
        &&& self.ref_pic_list_modification_l0@.len() == 0
        &&& !self.ref_pic_list_modification_flag_l1
        &&& self.ref_pic_list_modification_l1@.len() == 0
        &&& self.pred_weight_table.blank()
        &&& self.dec_ref_pic_marking.blank()
        &&& self.cabac_init_idc == 0
        &&& self.slice_qp_delta == 0
        &&& !self.sp_for_switch_flag
        &&& self.slice_qs_delta == 0
        &&& self.disable_deblocking_filter_idc == 0
        &&& self.slice_alpha_c0_offset_div2 == 0
        &&& self.slice_beta_offset_div2 == 0
    }

    /// Returns a blank one.
    pub fn new() -> (r: Self)
        ensures
            r.blank(),
    {
        Self {
            first_mb_in_slice: 0,
            slice_type: SliceType::P,
            pic_parameter_set_id: 0,
            colour_plane_id: 0,
            frame_num: 0,
            field_pic_flag: false,
            bottom_field_flag: false,
            idr_pic_id: 0,
            pic_order_cnt_lsb: 0,
            delta_pic_order_cnt_bottom: 0,
            delta_pic_order_cnt: [0i32; 2],
            redundant_pic_cnt: 0,
            direct_spatial_mv_pred_flag: false,
            num_ref_idx_active_override_flag: false,
            num_ref_idx_l0_active_minus1: 0,
            num_ref_idx_l1_active_minus1: 0,
            ref_pic_list_modification_flag_l0: false,
            ref_pic_list_modification_l0: Vec::new(),
            ref_pic_list_modification_flag_l1: false,
            ref_pic_list_modification_l1: Vec::new(),
            pred_weight_table: PredWeightTable::new(),
            dec_ref_pic_marking: RefPicMarking::new(),
            cabac_init_idc: 0,
            slice_qp_delta: 0,
            sp_for_switch_flag: false,
            slice_qs_delta: 0,
            disable_deblocking_filter_idc: 0,
            slice_alpha_c0_offset_div2: 0,
            slice_beta_offset_div2: 0,
        }
    }
}

impl Sps {
    /// `ChromaArrayType`: the chroma format, or 0 where the color planes are coded apart.
    pub open spec fn spec_chroma_array_type(&self) -> u8 {
        if self.separate_colour_plane_flag {
            0
        } else {
            self.chroma_format_idc
        }
    }

    /// Returns `ChromaArrayType`.
    pub fn chroma_array_type(&self) -> (r: u8)
        ensures
            r == self.spec_chroma_array_type(),
    {
        if self.separate_colour_plane_flag {
            0
        } else {
            self.chroma_format_idc
        }
    }
}

/// The number of macroblocks that cover `length` samples.
pub open spec fn macroblocks(length: int) -> int {
    (length + 15) / 16
}

/// The luma samples that one unit of horizontal cropping stands for.
pub open spec fn crop_unit_x(sps: Sps) -> int {
    if sps.chroma_format_idc == 1 || sps.chroma_format_idc == 2 {
        2
    } else {
        1
    }
}

/// The luma samples that one unit of vertical cropping stands for.
pub open spec fn crop_unit_y(sps: Sps) -> int {
    (if sps.chroma_format_idc == 1 {
        2int
    } else {
        1
    }) * (if sps.frame_mbs_only_flag {
        1int
    } else {
        2
    })
}

/// `sps` for pictures of `width` by `height`: whole macroblocks, cropped at
/// the right and at the bottom where the size is not a whole number of them.
pub open spec fn with_resolution(sps: Sps, width: int, height: int) -> Sps {
    let right = 16 * macroblocks(width) - width;
    let bottom = 16 * macroblocks(height) - height;
    let sized = Sps {
        pic_width_in_mbs_minus1: (macroblocks(width) - 1) as u16,
        pic_height_in_map_units_minus1: (macroblocks(height) - 1) as u16,
        ..sps
    };
    if right == 0 && bottom == 0 {
        sized
    } else {
        Sps {
            frame_cropping_flag: true,
            frame_crop_left_offset: 0,
            frame_crop_right_offset: (right / crop_unit_x(sps)) as u32,
            frame_crop_top_offset: 0,
            frame_crop_bottom_offset: (bottom / crop_unit_y(sps)) as u32,
            ..sized
        }
    }
}

/// The numbers of Annex A and of Tables 7-1 and 7-6: of the levels ten times
/// their names, but for 1b; of the profiles, the NAL unit types and the slice
/// types those that are theirs.
pub proof fn the_numbers_of_the_standard()
    ensures
        Level::L1B.number() == 9 && Level::L1.number() == 10 && Level::L1_1.number() == 11,
        Level::L1_2.number() == 12 && Level::L1_3.number() == 13,
        Level::L2_0.number() == 20 && Level::L2_1.number() == 21 && Level::L2_2.number() == 22,
        Level::L3.number() == 30 && Level::L3_1.number() == 31 && Level::L3_2.number() == 32,
        Level::L4.number() == 40 && Level::L4_1.number() == 41 && Level::L4_2.number() == 42,
        Level::L5.number() == 50 && Level::L5_1.number() == 51 && Level::L5_2.number() == 52,
        Level::L6.number() == 60 && Level::L6_1.number() == 61 && Level::L6_2.number() == 62,
        Profile::Baseline.number() == 66 && Profile::Main.number() == 77,
        Profile::Extended.number() == 88 && Profile::High.number() == 100,
        Profile::High10.number() == 110 && Profile::High422P.number() == 122,
        NaluType::Slice.number() == 1 && NaluType::SliceIdr.number() == 5,
        NaluType::Sps.number() == 7 && NaluType::Pps.number() == 8,
        SliceType::P.number() == 0 && SliceType::B.number() == 1 && SliceType::I.number() == 2,
        SliceType::Sp.number() == 3 && SliceType::Si.number() == 4,
{
}

/// The default scaling lists are those of Tables 7-3 and 7-4.
pub proof fn the_default_lists_of_the_standard()
    ensures
        DEFAULT_4X4_INTRA@ == seq![
            6u8, 13, 13, 20, 20, 20, 28, 28, 28, 28, 32, 32, 32, 37, 37, 42,
        ],
        DEFAULT_4X4_INTER@ == seq![
            10u8, 14, 14, 20, 20, 20, 24, 24, 24, 24, 27, 27, 27, 30, 30, 34,
        ],
        DEFAULT_8X8_INTRA@ == seq![
            6u8, 10, 10, 13, 11, 13, 16, 16, 16, 16, 18, 18, 18, 18, 18, 23,
            23, 23, 23, 23, 23, 25, 25, 25, 25, 25, 25, 25, 27, 27, 27, 27,
            27, 27, 27, 27, 29, 29, 29, 29, 29, 29, 29, 31, 31, 31, 31, 31,
            31, 33, 33, 33, 33, 33, 36, 36, 36, 36, 38, 38, 38, 40, 40, 42,
        ],
        DEFAULT_8X8_INTER@ == seq![
            9u8, 13, 13, 15, 13, 15, 17, 17, 17, 17, 19, 19, 19, 19, 19, 21,
            21, 21, 21, 21, 21, 22, 22, 22, 22, 22, 22, 22, 24, 24, 24, 24,
            24, 24, 24, 24, 25, 25, 25, 25, 25, 25, 25, 27, 27, 27, 27, 27,
            27, 28, 28, 28, 28, 28, 30, 30, 30, 30, 32, 32, 32, 33, 33, 35,
        ],
{
}

/// The sample aspect ratio that an index of Table E-1 stands for.
pub open spec fn indexed_ratio(index: u8) -> Option<(u16, u16)> {
    if index == 1 {
        Some((1, 1))
    } else if index == 2 {
        Some((12, 11))
    } else if index == 3 {
        Some((10, 11))
    } else if index == 4 {
        Some((16, 11))
    } else if index == 5 {
        Some((40, 33))
    } else if index == 6 {
        Some((24, 11))
    } else if index == 7 {
        Some((20, 11))
    } else if index == 8 {
        Some((32, 11))
    } else if index == 9 {
        Some((80, 33))
    } else if index == 10 {
        Some((18, 11))
    } else if index == 11 {
        Some((15, 11))
    } else if index == 12 {
        Some((64, 33))
    } else if index == 13 {
        Some((160, 99))
    } else if index == 14 {
        Some((4, 3))
    } else if index == 15 {
        Some((3, 2))
    } else if index == 16 {
        Some((2, 1))
    } else {
        None
    }
}

/// The index of a ratio stands for that ratio, and a ratio without one is
/// spelled out.
pub proof fn an_index_stands_for_its_ratio(width: u16, height: u16, other: u8)
    ensures
        ({
            let index = aspect_ratio_index(width, height);
            &&& index != 255 ==> indexed_ratio(index) == Some((width, height))
            &&& indexed_ratio(other) == Some((width, height)) ==> index == other
        }),
{
}

/// A decoder shows pictures of the size that a sequence parameter set of
/// progressive frames was given, but for what is less than a unit of its
/// cropping: two samples each way in 4:2:0, two across in 4:2:2, and one else.
pub proof fn a_size_is_shown(sps: Sps, width: int, height: int)
    requires
        1 <= width <= 1_048_560,
        1 <= height <= 1_048_560,
        sps.frame_mbs_only_flag,
        !sps.frame_cropping_flag,
        sps.chroma_format_idc <= 3,
    ensures
        ({
            let sized = with_resolution(sps, width, height);
            let across: int = if sps.chroma_format_idc == 1 || sps.chroma_format_idc == 2 {
                2
            } else {
                1
            };
            let down: int = if sps.chroma_format_idc == 1 {
                2
            } else {
                1
            };
            let shown_width = 16 * (sized.pic_width_in_mbs_minus1 + 1)
                - if sized.frame_cropping_flag {
                across * (sized.frame_crop_left_offset + sized.frame_crop_right_offset)
            } else {
                0
            };
            let shown_height = 16 * (sized.pic_height_in_map_units_minus1 + 1)
                - if sized.frame_cropping_flag {
                down * (sized.frame_crop_top_offset + sized.frame_crop_bottom_offset)
            } else {
                0
            };
            &&& width <= shown_width < width + across
            &&& height <= shown_height < height + down
            &&& sized.frame_cropping_flag ==> sized.frame_crop_left_offset == 0
                && sized.frame_crop_top_offset == 0
            &&& sized.frame_mbs_only_flag
        }),
{
    let right = 16 * macroblocks(width) - width;
    let bottom = 16 * macroblocks(height) - height;
    assert(0 <= right < 16 && 0 <= bottom < 16);
    let sized = with_resolution(sps, width, height);
    assert(crop_unit_x(sps) == 1 || crop_unit_x(sps) == 2);
    assert(crop_unit_y(sps) == 1 || crop_unit_y(sps) == 2);
    let (r, b) = (sized.frame_crop_right_offset, sized.frame_crop_bottom_offset);
    if right != 0 || bottom != 0 {
        if crop_unit_x(sps) == 2 {
            assert(r == right / 2);
        } else {
            assert(r == right / 1);
        }
        if crop_unit_y(sps) == 2 {
            assert(b == bottom / 2);
        } else {
            assert(b == bottom / 1);
        }
    }
}

/// The index of a sample aspect ratio in Table E-1, or 255 for one not in it.
pub open spec fn aspect_ratio_index(width: u16, height: u16) -> u8 {
    match (width, height) {
        (1, 1) => 1,
        (12, 11) => 2,
        (10, 11) => 3,
        (16, 11) => 4,
        (40, 33) => 5,
        (24, 11) => 6,
        (20, 11) => 7,
        (32, 11) => 8,
        (80, 33) => 9,
        (18, 11) => 10,
        (15, 11) => 11,
        (64, 33) => 12,
        (160, 99) => 13,
        (4, 3) => 14,
        (3, 2) => 15,
        (2, 1) => 16,
        _ => 255,
    }
}

/// Builds a sequence parameter set.
pub struct SpsBuilder(Sps);

impl SpsBuilder {
    /// What was built so far.
    pub closed spec fn sps(self) -> Sps {
        self.0
    }

    /// Starts from a blank one.
    pub fn new() -> (r: Self)
        ensures
            r.sps().blank(),
    {
        Self(Sps::new())
    }

    /// Sets `seq_parameter_set_id`.
    pub fn seq_parameter_set_id(self, value: u8) -> (r: Self)
        ensures
            r.sps() == (Sps { seq_parameter_set_id: value, ..self.sps() }),
    {
        Self(Sps { seq_parameter_set_id: value, ..self.0 })
    }

    /// Sets `chroma_format_idc`.
    pub fn chroma_format_idc(self, value: u8) -> (r: Self)
        ensures
            r.sps() == (Sps { chroma_format_idc: value, ..self.sps() }),
    {
        Self(Sps { chroma_format_idc: value, ..self.0 })
    }

    /// Sets `level_idc`.
    pub fn level_idc(self, value: Level) -> (r: Self)
        ensures
            r.sps() == (Sps { level_idc: value, ..self.sps() }),
    {
        Self(Sps { level_idc: value, ..self.0 })
    }

    /// Sets `pic_order_cnt_type`.
    pub fn pic_order_cnt_type(self, value: u8) -> (r: Self)
        ensures
            r.sps() == (Sps { pic_order_cnt_type: value, ..self.sps() }),
    {
        Self(Sps { pic_order_cnt_type: value, ..self.0 })
    }

    /// Sets `max_num_ref_frames`.
    pub fn max_num_ref_frames(self, value: u8) -> (r: Self)
        ensures
            r.sps() == (Sps { max_num_ref_frames: value, ..self.sps() }),
    {
        Self(Sps { max_num_ref_frames: value, ..self.0 })
    }

    /// Sets `frame_mbs_only_flag`.
    pub fn frame_mbs_only_flag(self, value: bool) -> (r: Self)
        ensures
            r.sps() == (Sps { frame_mbs_only_flag: value, ..self.sps() }),
    {
        Self(Sps { frame_mbs_only_flag: value, ..self.0 })
    }

    /// Sets `direct_8x8_inference_flag`.
    pub fn direct_8x8_inference_flag(self, value: bool) -> (r: Self)
        ensures
            r.sps() == (Sps { direct_8x8_inference_flag: value, ..self.sps() }),
    {
        Self(Sps { direct_8x8_inference_flag: value, ..self.0 })
    }

    /// Sets `profile_idc`.
    pub fn profile_idc(self, value: Profile) -> (r: Self)
        ensures
            r.sps() == (Sps { profile_idc: value.number(), ..self.sps() }),
    {
        Self(Sps { profile_idc: value.value(), ..self.0 })
    }

    /// Sets `log2_max_frame_num_minus4` for the power of two `value`, or the next lower one.
    pub fn max_frame_num(self, value: u32) -> (r: Self)
        requires
            value >= 16,
        ensures
            r.sps() == (Sps {
                log2_max_frame_num_minus4: (golomb::bit_length(value as nat) - 5) as u8,
                ..self.sps()
            }),
    {
        let log2: u8 = floor_log2(value);
        Self(Sps { log2_max_frame_num_minus4: log2 - 4, ..self.0 })
    }

    /// Sets `log2_max_pic_order_cnt_lsb_minus4` for the power of two `value`, or the next lower one.
    pub fn max_pic_order_cnt_lsb(self, value: u32) -> (r: Self)
        requires
            value >= 16,
        ensures
            r.sps() == (Sps {
                log2_max_pic_order_cnt_lsb_minus4: (golomb::bit_length(value as nat) - 5) as u8,
                ..self.sps()
            }),
    {
        let log2: u8 = floor_log2(value);
        Self(Sps { log2_max_pic_order_cnt_lsb_minus4: log2 - 4, ..self.0 })
    }

    /// Sets the luma bit depth.
    pub fn bit_depth_luma(self, value: u8) -> (r: Self)
        requires
            value >= 8,
        ensures
            r.sps() == (Sps { bit_depth_luma_minus8: (value - 8) as u8, ..self.sps() }),
    {
        Self(Sps { bit_depth_luma_minus8: value - 8, ..self.0 })
    }

    /// Sets the chroma bit depth.
    pub fn bit_depth_chroma(self, value: u8) -> (r: Self)
        requires
            value >= 8,
        ensures
            r.sps() == (Sps { bit_depth_chroma_minus8: (value - 8) as u8, ..self.sps() }),
    {
        Self(Sps { bit_depth_chroma_minus8: value - 8, ..self.0 })
    }

    /// Sets the size of the pictures. The chroma format and
    /// `frame_mbs_only_flag` must be set before, since cropping goes by them.
    pub fn resolution(self, width: u32, height: u32) -> (r: Self)
        requires
            1 <= width <= 1_048_576,
            1 <= height <= 1_048_576,
        ensures
            r.sps() == with_resolution(self.sps(), width as int, height as int),
    {
        let mb_width: u32 = (width + 15) / 16;
        let mb_height: u32 = (height + 15) / 16;
        let right: u32 = mb_width * 16 - width;
        let bottom: u32 = mb_height * 16 - height;
        let unit_x: u32 = if self.0.chroma_format_idc == 1 || self.0.chroma_format_idc == 2 {
            2
        } else {
            1
        };
        let unit_y: u32 = (if self.0.chroma_format_idc == 1 {
            2u32
        } else {
            1
        }) * (if self.0.frame_mbs_only_flag {
            1u32
        } else {
            2
        });
        let sized = Sps {
            pic_width_in_mbs_minus1: (mb_width - 1) as u16,
            pic_height_in_map_units_minus1: (mb_height - 1) as u16,
            ..self.0
        };
        if right == 0 && bottom == 0 {
            Self(sized)
        } else {
            Self(
                Sps {
                    frame_cropping_flag: true,
                    frame_crop_left_offset: 0,
                    frame_crop_right_offset: right / unit_x,
                    frame_crop_top_offset: 0,
                    frame_crop_bottom_offset: bottom / unit_y,
                    ..sized
                },
            )
        }
    }

    /// Sets the sample aspect ratio, by its index where it has one.
    pub fn aspect_ratio(self, width: u16, height: u16) -> (r: Self)
        ensures
            r.sps() == (Sps {
                vui_parameters_present_flag: true,
                vui_parameters: VuiParams {
                    aspect_ratio_info_present_flag: true,
                    aspect_ratio_idc: aspect_ratio_index(width, height),
                    sar_width: if aspect_ratio_index(width, height) == 255 {
                        width
                    } else {
                        self.sps().vui_parameters.sar_width
                    },
                    sar_height: if aspect_ratio_index(width, height) == 255 {
                        height
                    } else {
                        self.sps().vui_parameters.sar_height
                    },
                    ..self.sps().vui_parameters
                },
                ..self.sps()
            }),
    {
        let index: u8 = match (width, height) {
            (1, 1) => 1,
            (12, 11) => 2,
            (10, 11) => 3,
            (16, 11) => 4,
            (40, 33) => 5,
            (24, 11) => 6,
            (20, 11) => 7,
            (32, 11) => 8,
            (80, 33) => 9,
            (18, 11) => 10,
            (15, 11) => 11,
            (64, 33) => 12,
            (160, 99) => 13,
            (4, 3) => 14,
            (3, 2) => 15,
            (2, 1) => 16,
            _ => 255,
        };
        let vui = self.0.vui_parameters;
        let sar_width: u16 = if index == 255 {
            width
        } else {
            vui.sar_width
        };
        let sar_height: u16 = if index == 255 {
            height
        } else {
            vui.sar_height
        };
        Self(
            Sps {
                vui_parameters_present_flag: true,
                vui_parameters: VuiParams {
                    aspect_ratio_info_present_flag: true,
                    aspect_ratio_idc: index,
                    sar_width,
                    sar_height,
                    ..vui
                },
                ..self.0
            },
        )
    }

    /// Sets the duration of a field, `num_units_in_tick / time_scale` seconds.
    pub fn timing_info(
        self,
        num_units_in_tick: u32,
        time_scale: u32,
        fixed_frame_rate_flag: bool,
    ) -> (r: Self)
        ensures
            r.sps() == (Sps {
                vui_parameters_present_flag: true,
                vui_parameters: VuiParams {
                    timing_info_present_flag: true,
                    num_units_in_tick,
                    time_scale,
                    fixed_frame_rate_flag,
                    ..self.sps().vui_parameters
                },
                ..self.sps()
            }),
    {
        Self(
            Sps {
                vui_parameters_present_flag: true,
                vui_parameters: VuiParams {
                    timing_info_present_flag: true,
                    num_units_in_tick,
                    time_scale,
                    fixed_frame_rate_flag,
                    ..self.0.vui_parameters
                },
                ..self.0
            },
        )
    }

    /// Sets the range of the samples and the color description.
    pub fn video_signal_type(
        self,
        full_range: bool,
        colour_primaries: u8,
        transfer_characteristics: u8,
        matrix_coefficients: u8,
    ) -> (r: Self)
        ensures
            r.sps() == (Sps {
                vui_parameters_present_flag: true,
                vui_parameters: VuiParams {
                    video_signal_type_present_flag: true,
                    video_full_range_flag: full_range,
                    colour_description_present_flag: true,
                    colour_primaries,
                    transfer_characteristics,
                    matrix_coefficients,
                    ..self.sps().vui_parameters
                },
                ..self.sps()
            }),
    {
        Self(
            Sps {
                vui_parameters_present_flag: true,
                vui_parameters: VuiParams {
                    video_signal_type_present_flag: true,
                    video_full_range_flag: full_range,
                    colour_description_present_flag: true,
                    colour_primaries,
                    transfer_characteristics,
                    matrix_coefficients,
                    ..self.0.vui_parameters
                },
                ..self.0
            },
        )
    }

    /// States a bitstream restriction and sets its `max_num_reorder_frames`.
    pub fn max_num_reorder_frames(self, value: u32) -> (r: Self)
        ensures
            r.sps() == (Sps {
                vui_parameters_present_flag: true,
                vui_parameters: VuiParams {
                    bitstream_restriction_flag: true,
                    max_num_reorder_frames: value,
                    ..self.sps().vui_parameters
                },
                ..self.sps()
            }),
    {
        Self(
            Sps {
                vui_parameters_present_flag: true,
                vui_parameters: VuiParams {
                    bitstream_restriction_flag: true,
                    max_num_reorder_frames: value,
                    ..self.0.vui_parameters
                },
                ..self.0
            },
        )
    }

    /// States a bitstream restriction and sets its `max_dec_frame_buffering`.
    pub fn max_dec_frame_buffering(self, value: u32) -> (r: Self)
        ensures
            r.sps() == (Sps {
                vui_parameters_present_flag: true,
                vui_parameters: VuiParams {
                    bitstream_restriction_flag: true,
                    max_dec_frame_buffering: value,
                    ..self.sps().vui_parameters
                },
                ..self.sps()
            }),
    {
        Self(
            Sps {
                vui_parameters_present_flag: true,
                vui_parameters: VuiParams {
                    bitstream_restriction_flag: true,
                    max_dec_frame_buffering: value,
                    ..self.0.vui_parameters
                },
                ..self.0
            },
        )
    }

    /// Gives the parameter set out.
    pub fn build(self) -> (r: Rc<Sps>)
        ensures
            *r == self.sps(),
    {
        Rc::new(self.0)
    }
}

/// The exponent of the largest power of two that is at most `value`.
fn floor_log2(value: u32) -> (r: u8)
    requires
        value >= 16,
    ensures
        r == golomb::bit_length(value as nat) - 1,
        4 <= r < 32,
{
    proof {
        golomb::lemma_leading_zeros(value);
        golomb::lemma_bit_length(value as nat);
        vstd::arithmetic::power2::lemma2_to64();
        vstd::std_specs::bits::axiom_u32_leading_zeros(value);
        let n = golomb::bit_length(value as nat);
        if n < 4 {
            vstd::arithmetic::power2::lemma_pow2_strictly_increases(n, 4);
        }
    }
    (31 - value.leading_zeros()) as u8
}

/// Builds a picture parameter set.
pub struct PpsBuilder(Pps);

impl PpsBuilder {
    /// What was built so far.
    pub closed spec fn pps(self) -> Pps {
        self.0
    }

    /// Starts from a blank one that refers to `sps`.
    pub fn new(sps: Rc<Sps>) -> (r: Self)
        ensures
            r.pps().blank(*sps),
    {
        Self(Pps::new(sps))
    }

    /// Sets `pic_parameter_set_id`.
    pub fn pic_parameter_set_id(self, value: u8) -> (r: Self)
        ensures
            r.pps() == (Pps { pic_parameter_set_id: value, ..self.pps() }),
    {
        Self(Pps { pic_parameter_set_id: value, ..self.0 })
    }

    /// Sets `entropy_coding_mode_flag`.
    pub fn entropy_coding_mode_flag(self, value: bool) -> (r: Self)
        ensures
            r.pps() == (Pps { entropy_coding_mode_flag: value, ..self.pps() }),
    {
        Self(Pps { entropy_coding_mode_flag: value, ..self.0 })
    }

    /// Sets `transform_8x8_mode_flag`.
    pub fn transform_8x8_mode_flag(self, value: bool) -> (r: Self)
        ensures
            r.pps() == (Pps { transform_8x8_mode_flag: value, ..self.pps() }),
    {
        Self(Pps { transform_8x8_mode_flag: value, ..self.0 })
    }

    /// Sets `deblocking_filter_control_present_flag`.
    pub fn deblocking_filter_control_present_flag(self, value: bool) -> (r: Self)
        ensures
            r.pps() == (Pps { deblocking_filter_control_present_flag: value, ..self.pps() }),
    {
        Self(Pps { deblocking_filter_control_present_flag: value, ..self.0 })
    }

    /// Sets `num_ref_idx_l1_default_active_minus1`.
    pub fn num_ref_idx_l1_default_active_minus1(self, value: u8) -> (r: Self)
        ensures
            r.pps() == (Pps { num_ref_idx_l1_default_active_minus1: value, ..self.pps() }),
    {
        Self(Pps { num_ref_idx_l1_default_active_minus1: value, ..self.0 })
    }

    /// Sets the initial quantizer.
    pub fn pic_init_qp(self, value: u8) -> (r: Self)
        requires
            value <= 51,
        ensures
            r.pps() == (Pps { pic_init_qp_minus26: (value - 26) as i8, ..self.pps() }),
    {
        Self(Pps { pic_init_qp_minus26: (value as i8) - 26, ..self.0 })
    }

    /// Sets the default number of references in list 0.
    pub fn num_ref_idx_l0_default_active(self, value: u8) -> (r: Self)
        requires
            value >= 1,
        ensures
            r.pps() == (Pps { num_ref_idx_l0_default_active_minus1: (value - 1) as u8, ..self.pps() }),
    {
        Self(Pps { num_ref_idx_l0_default_active_minus1: value - 1, ..self.0 })
    }

    /// Gives the parameter set out.
    pub fn build(self) -> (r: Rc<Pps>)
        ensures
            *r == self.pps(),
    {
        Rc::new(self.0)
    }
}

/// Builds a slice header.
pub struct SliceHeaderBuilder(SliceHeader);

impl SliceHeaderBuilder {
    /// What was built so far.
    pub closed spec fn header(self) -> SliceHeader {
        self.0
    }

    /// Starts from a blank one that refers to `pps` and has its default
    /// numbers of references.
    pub fn new(pps: &Pps) -> (r: Self)
        ensures
            exists|blank: SliceHeader| #[trigger] blank.blank() && r.header() == (SliceHeader {
                pic_parameter_set_id: pps.pic_parameter_set_id,
                num_ref_idx_l0_active_minus1: pps.num_ref_idx_l0_default_active_minus1,
                num_ref_idx_l1_active_minus1: pps.num_ref_idx_l1_default_active_minus1,
                ..blank
            }),
    {
        let blank = SliceHeader::new();
        let ghost start = blank;
        let r = Self(
            SliceHeader {
                pic_parameter_set_id: pps.pic_parameter_set_id,
                num_ref_idx_l0_active_minus1: pps.num_ref_idx_l0_default_active_minus1,
                num_ref_idx_l1_active_minus1: pps.num_ref_idx_l1_default_active_minus1,
                ..blank
            },
        );
        assert(start.blank());
        r
    }

    /// Sets `slice_type`.
    pub fn slice_type(self, value: SliceType) -> (r: Self)
        ensures
            r.header() == (SliceHeader { slice_type: value, ..self.header() }),
    {
        Self(SliceHeader { slice_type: value, ..self.0 })
    }

    /// Sets `first_mb_in_slice`.
    pub fn first_mb_in_slice(self, value: u32) -> (r: Self)
        ensures
            r.header() == (SliceHeader { first_mb_in_slice: value, ..self.header() }),
    {
        Self(SliceHeader { first_mb_in_slice: value, ..self.0 })
    }

    /// Sets `frame_num`.
    pub fn frame_num(self, value: u16) -> (r: Self)
        ensures
            r.header() == (SliceHeader { frame_num: value, ..self.header() }),
    {
        Self(SliceHeader { frame_num: value, ..self.0 })
    }

    /// Sets `pic_order_cnt_lsb`.
    pub fn pic_order_cnt_lsb(self, value: u16) -> (r: Self)
        ensures
            r.header() == (SliceHeader { pic_order_cnt_lsb: value, ..self.header() }),
    {
        Self(SliceHeader { pic_order_cnt_lsb: value, ..self.0 })
    }

    /// Gives the header out.
    pub fn build(self) -> (r: SliceHeader)
        ensures
            r == self.header(),
    {
        self.0
    }
}

} // verus!
