//! The parameters that a driver is handed with every frame.

use vstd::prelude::*;

use crate::bindings::VA_INVALID_ID;
use crate::bindings::VA_PICTURE_H264_INVALID;
use crate::bindings::VA_PICTURE_H264_SHORT_TERM_REFERENCE;
use crate::buffer::BufferType;
use crate::buffer::EncMiscParameter;
use crate::buffer::EncMiscParameterFrameRate;
use crate::buffer::EncMiscParameterRateControl;
use crate::buffer::EncPackedHeaderParameter;
use crate::buffer::EncPackedHeaderType;
use crate::buffer::EncPictureParameterBufferH264;
use crate::buffer::EncSequenceParameterBufferH264;
use crate::buffer::EncSliceParameterBufferH264;
use crate::buffer::H264EncFrameCropOffsets;
use crate::buffer::H264EncPicFields;
use crate::buffer::H264EncSeqFields;
use crate::buffer::H264VuiFields;
use crate::buffer::PictureH264;
use crate::buffer::RcFlags;
use crate::codec::h264::parser::Pps;
use crate::codec::h264::parser::SliceHeader;
use crate::codec::h264::parser::Sps;
use crate::encode::FrameMeta;
use crate::encode::MAX_QP;
use crate::encode::MIN_QP;
use crate::encode::RATE_CONTROL_WINDOW_MS;

verus! {

/// The entry of a reference list that names no picture.
pub open spec fn invalid_pic() -> PictureH264 {
    PictureH264 {
        picture_id: VA_INVALID_ID,
        frame_idx: 0,
        flags: VA_PICTURE_H264_INVALID,
        top_field_order_cnt: 0,
        bottom_field_order_cnt: 0,
    }
}

/// Returns the entry of a reference list that names no picture.
pub fn build_invalid_pic() -> (r: PictureH264)
    ensures
        r == invalid_pic(),
{
    PictureH264 {
        picture_id: VA_INVALID_ID,
        frame_idx: 0,
        flags: VA_PICTURE_H264_INVALID,
        top_field_order_cnt: 0,
        bottom_field_order_cnt: 0,
    }
}

/// The short-term reference picture in a surface.
pub open spec fn h264_pic(surface_id: u32, meta: FrameMeta) -> PictureH264 {
    PictureH264 {
        picture_id: surface_id,
        frame_idx: meta.frame_num,
        flags: VA_PICTURE_H264_SHORT_TERM_REFERENCE,
        top_field_order_cnt: meta.poc as i32,
        bottom_field_order_cnt: meta.poc as i32,
    }
}

/// Returns the short-term reference picture in a surface.
pub fn build_h264_pic(surface_id: u32, meta: FrameMeta) -> (r: PictureH264)
    ensures
        r == h264_pic(surface_id, meta),
{
    PictureH264 {
        picture_id: surface_id,
        frame_idx: meta.frame_num,
        flags: VA_PICTURE_H264_SHORT_TERM_REFERENCE,
        top_field_order_cnt: meta.poc as i32,
        bottom_field_order_cnt: meta.poc as i32,
    }
}

/// A reference list that holds `reference`, if there is one, and nothing else.
pub open spec fn lists_only(list: Seq<PictureH264>, reference: Option<(u32, FrameMeta)>) -> bool {
    forall|i: int|
        0 <= i < list.len() ==> #[trigger] list[i] == match reference {
            Some((id, meta)) if i == 0 => h264_pic(id, meta),
            _ => invalid_pic(),
        }
}

/// The bit fields of the sequence parameters for `sps`.
pub open spec fn seq_fields(sps: Sps) -> H264EncSeqFields {
    H264EncSeqFields {
        chroma_format_idc: sps.chroma_format_idc,
        frame_mbs_only_flag: sps.frame_mbs_only_flag,
        mb_adaptive_frame_field_flag: sps.mb_adaptive_frame_field_flag,
        seq_scaling_matrix_present_flag: sps.seq_scaling_matrix_present_flag,
        direct_8x8_inference_flag: sps.direct_8x8_inference_flag,
        log2_max_frame_num_minus4: sps.log2_max_frame_num_minus4,
        pic_order_cnt_type: sps.pic_order_cnt_type,
        log2_max_pic_order_cnt_lsb_minus4: sps.log2_max_pic_order_cnt_lsb_minus4,
        delta_pic_order_always_zero_flag: sps.delta_pic_order_always_zero_flag,
    }
}

/// The cropping that `sps` states, if any.
pub open spec fn frame_crop(sps: Sps) -> Option<H264EncFrameCropOffsets> {
    if sps.frame_cropping_flag {
        Some(
            H264EncFrameCropOffsets {
                left: sps.frame_crop_left_offset,
                right: sps.frame_crop_right_offset,
                top: sps.frame_crop_top_offset,
                bottom: sps.frame_crop_bottom_offset,
            },
        )
    } else {
        None
    }
}

/// The usability information that `sps` states, if any.
pub open spec fn vui_fields(sps: Sps) -> Option<H264VuiFields> {
    if sps.vui_parameters_present_flag {
        Some(
            H264VuiFields {
                aspect_ratio_info_present_flag: sps.vui_parameters.aspect_ratio_idc as u32,
                timing_info_present_flag: sps.vui_parameters.timing_info_present_flag,
                bitstream_restriction_flag: sps.vui_parameters.bitstream_restriction_flag,
                log2_max_mv_length_horizontal: sps.vui_parameters.log2_max_mv_length_horizontal,
                log2_max_mv_length_vertical: sps.vui_parameters.log2_max_mv_length_vertical,
                fixed_frame_rate_flag: sps.vui_parameters.fixed_frame_rate_flag,
                low_delay_hrd_flag: sps.vui_parameters.low_delay_hrd_flag,
                motion_vectors_over_pic_boundaries_flag:
                    sps.vui_parameters.motion_vectors_over_pic_boundaries_flag,
            },
        )
    } else {
        None
    }
}

/// `param` says what `sps` says, with the given rate and periods.
pub open spec fn is_seq_param(
    param: EncSequenceParameterBufferH264,
    sps: Sps,
    bits_per_second: u32,
    intra_period: u32,
    ip_period: u32,
) -> bool {
    &&& param.seq_parameter_set_id == sps.seq_parameter_set_id
    &&& param.level_idc == sps.level_idc.number()
    &&& param.intra_period == intra_period
    &&& param.intra_idr_period == intra_period
    &&& param.ip_period == ip_period
    &&& param.bits_per_second == bits_per_second
    &&& param.max_num_ref_frames == sps.max_num_ref_frames
    &&& param.picture_width_in_mbs == sps.pic_width_in_mbs_minus1 + 1
    &&& param.picture_height_in_mbs == sps.pic_height_in_map_units_minus1 + 1
    &&& param.seq_fields == seq_fields(sps)
    &&& param.bit_depth_luma_minus8 == sps.bit_depth_luma_minus8
    &&& param.bit_depth_chroma_minus8 == sps.bit_depth_chroma_minus8
    &&& param.num_ref_frames_in_pic_order_cnt_cycle == sps.num_ref_frames_in_pic_order_cnt_cycle
    &&& param.offset_for_non_ref_pic == sps.offset_for_non_ref_pic
    &&& param.offset_for_top_to_bottom_field == sps.offset_for_top_to_bottom_field
    &&& param.offset_for_ref_frame@ == sps.offset_for_ref_frame@.push(0)
    &&& param.frame_crop == frame_crop(sps)
    &&& param.vui_fields == vui_fields(sps)
    &&& param.aspect_ratio_idc == sps.vui_parameters.aspect_ratio_idc
    &&& param.sar_width == sps.vui_parameters.sar_width
    &&& param.sar_height == sps.vui_parameters.sar_height
    &&& param.num_units_in_tick == sps.vui_parameters.num_units_in_tick
    &&& param.time_scale == sps.vui_parameters.time_scale
}

/// Returns the sequence parameters for `sps`.
pub fn build_enc_seq_param(
    sps: &Sps,
    bits_per_second: u32,
    intra_period: u32,
    ip_period: u32,
) -> (r: BufferType)
    requires
        sps.pic_width_in_mbs_minus1 < u16::MAX,
        sps.pic_height_in_map_units_minus1 < u16::MAX,
    ensures
        r is EncSequenceParameter,
        is_seq_param(
            r->EncSequenceParameter_0,
            *sps,
            bits_per_second,
            intra_period,
            ip_period,
        ),
{
    let seq_fields = H264EncSeqFields {
        chroma_format_idc: sps.chroma_format_idc,
        frame_mbs_only_flag: sps.frame_mbs_only_flag,
        mb_adaptive_frame_field_flag: sps.mb_adaptive_frame_field_flag,
        seq_scaling_matrix_present_flag: sps.seq_scaling_matrix_present_flag,
        direct_8x8_inference_flag: sps.direct_8x8_inference_flag,
        log2_max_frame_num_minus4: sps.log2_max_frame_num_minus4,
        pic_order_cnt_type: sps.pic_order_cnt_type,
        log2_max_pic_order_cnt_lsb_minus4: sps.log2_max_pic_order_cnt_lsb_minus4,
        delta_pic_order_always_zero_flag: sps.delta_pic_order_always_zero_flag,
    };
    let frame_crop = if sps.frame_cropping_flag {
        Some(
            H264EncFrameCropOffsets {
                left: sps.frame_crop_left_offset,
                right: sps.frame_crop_right_offset,
                top: sps.frame_crop_top_offset,
                bottom: sps.frame_crop_bottom_offset,
            },
        )
    } else {
        None
    };
    let vui_fields = if sps.vui_parameters_present_flag {
        Some(
            H264VuiFields {
                aspect_ratio_info_present_flag: sps.vui_parameters.aspect_ratio_idc as u32,
                timing_info_present_flag: sps.vui_parameters.timing_info_present_flag,
                bitstream_restriction_flag: sps.vui_parameters.bitstream_restriction_flag,
                log2_max_mv_length_horizontal: sps.vui_parameters.log2_max_mv_length_horizontal,
                log2_max_mv_length_vertical: sps.vui_parameters.log2_max_mv_length_vertical,
                fixed_frame_rate_flag: sps.vui_parameters.fixed_frame_rate_flag,
                low_delay_hrd_flag: sps.vui_parameters.low_delay_hrd_flag,
                motion_vectors_over_pic_boundaries_flag:
                    sps.vui_parameters.motion_vectors_over_pic_boundaries_flag,
            },
        )
    } else {
        None
    };

    // VA has room for one offset more than the syntax.
    let mut offset_for_ref_frame: [i32; 256] = [0i32; 256];
    let mut i: usize = 0;
    while i < 255
        invariant
            i <= 255,
            forall|j: int| 0 <= j < i ==> offset_for_ref_frame[j] == sps.offset_for_ref_frame[j],
            forall|j: int| i <= j < 256 ==> offset_for_ref_frame[j] == 0,
        decreases 255 - i,
    {
        offset_for_ref_frame[i] = sps.offset_for_ref_frame[i];
        i += 1;
    }
    assert(offset_for_ref_frame@ =~= sps.offset_for_ref_frame@.push(0));

    BufferType::EncSequenceParameter(
        EncSequenceParameterBufferH264 {
            seq_parameter_set_id: sps.seq_parameter_set_id,
            level_idc: sps.level_idc.value(),
            intra_period,
            intra_idr_period: intra_period,
            ip_period,
            bits_per_second,
            max_num_ref_frames: sps.max_num_ref_frames as u32,
            picture_width_in_mbs: sps.pic_width_in_mbs_minus1 + 1,
            picture_height_in_mbs: sps.pic_height_in_map_units_minus1 + 1,
            seq_fields,
            bit_depth_luma_minus8: sps.bit_depth_luma_minus8,
            bit_depth_chroma_minus8: sps.bit_depth_chroma_minus8,
            num_ref_frames_in_pic_order_cnt_cycle: sps.num_ref_frames_in_pic_order_cnt_cycle,
            offset_for_non_ref_pic: sps.offset_for_non_ref_pic,
            offset_for_top_to_bottom_field: sps.offset_for_top_to_bottom_field,
            offset_for_ref_frame,
            frame_crop,
            vui_fields,
            aspect_ratio_idc: sps.vui_parameters.aspect_ratio_idc,
            sar_width: sps.vui_parameters.sar_width as u32,
            sar_height: sps.vui_parameters.sar_height as u32,
            num_units_in_tick: sps.vui_parameters.num_units_in_tick,
            time_scale: sps.vui_parameters.time_scale,
        },
    )
}

/// The bit fields of the picture parameters for `pps`.
pub open spec fn pic_fields(pps: Pps, is_idr: bool) -> H264EncPicFields {
    H264EncPicFields {
        idr_pic_flag: is_idr,
        reference_pic_flag: true,
        entropy_coding_mode_flag: pps.entropy_coding_mode_flag,
        weighted_pred_flag: pps.weighted_pred_flag,
        weighted_bipred_idc: pps.weighted_bipred_idc,
        constrained_intra_pred_flag: pps.constrained_intra_pred_flag,
        transform_8x8_mode_flag: pps.transform_8x8_mode_flag,
        deblocking_filter_control_present_flag: pps.deblocking_filter_control_present_flag,
        redundant_pic_cnt_present_flag: pps.redundant_pic_cnt_present_flag,
        pic_order_present_flag: false,
        pic_scaling_matrix_present_flag: pps.pic_scaling_matrix_present_flag,
    }
}

/// `param` is for a picture that is itself a short-term reference, coded
/// with `pps` into the buffer `coded` and reconstructed in the surface
/// `recon_id`, that predicts from `reference`.
pub open spec fn is_pic_param(
    param: EncPictureParameterBufferH264,
    pps: Pps,
    coded: u32,
    recon_id: u32,
    meta: FrameMeta,
    is_idr: bool,
    reference: Option<(u32, FrameMeta)>,
) -> bool {
    &&& param.curr_pic == h264_pic(recon_id, meta)
    &&& lists_only(param.reference_frames@, reference)
    &&& param.coded_buf == coded
    &&& param.pic_parameter_set_id == pps.pic_parameter_set_id
    &&& param.seq_parameter_set_id == pps.seq_parameter_set_id
    &&& param.last_picture == 0
    &&& param.frame_num == meta.frame_num as u16
    &&& param.pic_init_qp == (pps.pic_init_qp_minus26 + 26) as u8
    &&& param.num_ref_idx_l0_active_minus1 == pps.num_ref_idx_l0_default_active_minus1
    &&& param.num_ref_idx_l1_active_minus1 == pps.num_ref_idx_l1_default_active_minus1
    &&& param.chroma_qp_index_offset == pps.chroma_qp_index_offset
    &&& param.second_chroma_qp_index_offset == pps.second_chroma_qp_index_offset
    &&& param.pic_fields == pic_fields(pps, is_idr)
}

/// Returns the picture parameters for a frame.
pub fn build_enc_pic_param(
    pps: &Pps,
    coded: u32,
    recon_id: u32,
    meta: FrameMeta,
    is_idr: bool,
    reference: Option<(u32, FrameMeta)>,
) -> (r: BufferType)
    requires
        pps.pic_init_qp_minus26 + 26 <= i8::MAX,
    ensures
        r is EncPictureParameter,
        is_pic_param(
            r->EncPictureParameter_0,
            *pps,
            coded,
            recon_id,
            meta,
            is_idr,
            reference,
        ),
{
    let pic_fields = H264EncPicFields {
        idr_pic_flag: is_idr,
        reference_pic_flag: true,
        entropy_coding_mode_flag: pps.entropy_coding_mode_flag,
        weighted_pred_flag: pps.weighted_pred_flag,
        weighted_bipred_idc: pps.weighted_bipred_idc,
        constrained_intra_pred_flag: pps.constrained_intra_pred_flag,
        transform_8x8_mode_flag: pps.transform_8x8_mode_flag,
        deblocking_filter_control_present_flag: pps.deblocking_filter_control_present_flag,
        redundant_pic_cnt_present_flag: pps.redundant_pic_cnt_present_flag,
        pic_order_present_flag: false,
        pic_scaling_matrix_present_flag: pps.pic_scaling_matrix_present_flag,
    };
    let curr_pic = build_h264_pic(recon_id, meta);
    let mut reference_frames: [PictureH264; 16] = [build_invalid_pic();16];
    if let Some((id, m)) = reference {
        reference_frames[0] = build_h264_pic(id, m);
    }
    BufferType::EncPictureParameter(
        EncPictureParameterBufferH264 {
            curr_pic,
            reference_frames,
            coded_buf: coded,
            pic_parameter_set_id: pps.pic_parameter_set_id,
            seq_parameter_set_id: pps.seq_parameter_set_id,
            last_picture: 0,
            frame_num: meta.frame_num as u16,
            pic_init_qp: (pps.pic_init_qp_minus26 + 26) as u8,
            num_ref_idx_l0_active_minus1: pps.num_ref_idx_l0_default_active_minus1,
            num_ref_idx_l1_active_minus1: pps.num_ref_idx_l1_default_active_minus1,
            chroma_qp_index_offset: pps.chroma_qp_index_offset,
            second_chroma_qp_index_offset: pps.second_chroma_qp_index_offset,
            pic_fields,
        },
    )
}

/// The number of references in list 0, minus one: the slice's own where it
/// overrides the picture parameter set.
pub open spec fn l0_active_minus1(pps: Pps, header: SliceHeader) -> u8 {
    if header.num_ref_idx_active_override_flag {
        header.num_ref_idx_l0_active_minus1
    } else {
        pps.num_ref_idx_l0_default_active_minus1
    }
}

/// The number of references in list 1, minus one.
pub open spec fn l1_active_minus1(pps: Pps, header: SliceHeader) -> u8 {
    if header.num_ref_idx_active_override_flag {
        header.num_ref_idx_l1_active_minus1
    } else {
        pps.num_ref_idx_l1_default_active_minus1
    }
}

/// `param` weighs no reference: every flag and every offset is zero.
pub open spec fn is_unweighted(param: EncSliceParameterBufferH264) -> bool {
    &&& param.luma_weight_l0_flag == 0
    &&& param.chroma_weight_l0_flag == 0
    &&& param.luma_weight_l1_flag == 0
    &&& param.chroma_weight_l1_flag == 0
    &&& forall|i: int| 0 <= i < 32 ==> #[trigger] param.luma_offset_l0[i] == 0
    &&& forall|i: int| 0 <= i < 32 ==> #[trigger] param.luma_offset_l1[i] == 0
    &&& forall|i: int, j: int|
        0 <= i < 32 && 0 <= j < 2 ==> #[trigger] param.chroma_offset_l0[i][j] == 0
    &&& forall|i: int, j: int|
        0 <= i < 32 && 0 <= j < 2 ==> #[trigger] param.chroma_offset_l1[i][j] == 0
}

/// `param` is for one slice of `num_macroblocks`, that predicts from
/// `reference` in list 0, and else says what `header` says.
pub open spec fn is_slice_param(
    param: EncSliceParameterBufferH264,
    pps: Pps,
    header: SliceHeader,
    reference: Option<(u32, FrameMeta)>,
    num_macroblocks: u32,
) -> bool {
    &&& param.macroblock_address == header.first_mb_in_slice
    &&& param.num_macroblocks == num_macroblocks
    &&& param.macroblock_info == VA_INVALID_ID
    &&& param.slice_type == header.slice_type.number()
    &&& param.pic_parameter_set_id == pps.pic_parameter_set_id
    &&& param.idr_pic_id == header.idr_pic_id
    &&& param.pic_order_cnt_lsb == header.pic_order_cnt_lsb
    &&& param.delta_pic_order_cnt_bottom == header.delta_pic_order_cnt_bottom
    &&& param.delta_pic_order_cnt == header.delta_pic_order_cnt
    &&& param.direct_spatial_mv_pred_flag == header.direct_spatial_mv_pred_flag
    &&& param.num_ref_idx_active_override_flag == header.num_ref_idx_active_override_flag
    &&& param.num_ref_idx_l0_active_minus1 == l0_active_minus1(pps, header)
    &&& param.num_ref_idx_l1_active_minus1 == l1_active_minus1(pps, header)
    &&& lists_only(param.ref_pic_list_0@, reference)
    &&& lists_only(param.ref_pic_list_1@, None)
    &&& param.luma_log2_weight_denom == header.pred_weight_table.luma_log2_weight_denom
    &&& param.chroma_log2_weight_denom == header.pred_weight_table.chroma_log2_weight_denom
    &&& param.luma_weight_l0 == header.pred_weight_table.luma_weight_l0
    &&& param.chroma_weight_l0 == header.pred_weight_table.chroma_weight_l0
    &&& param.luma_weight_l1 == header.pred_weight_table.luma_weight_l1
    &&& param.chroma_weight_l1 == header.pred_weight_table.chroma_weight_l1
    &&& is_unweighted(param)
    &&& param.cabac_init_idc == header.cabac_init_idc
    &&& param.slice_qp_delta == header.slice_qp_delta
    &&& param.disable_deblocking_filter_idc == header.disable_deblocking_filter_idc
    &&& param.slice_alpha_c0_offset_div2 == header.slice_alpha_c0_offset_div2
    &&& param.slice_beta_offset_div2 == header.slice_beta_offset_div2
}

/// Returns the parameters of the one slice of a frame, with no weighted
/// prediction and at most one reference.
pub fn build_enc_slice_param(
    pps: &Pps,
    header: &SliceHeader,
    reference: Option<(u32, FrameMeta)>,
    num_macroblocks: u32,
) -> (r: BufferType)
    ensures
        r is EncSliceParameter,
        is_slice_param(r->EncSliceParameter_0, *pps, *header, reference, num_macroblocks),
{
    let mut ref_pic_list_0: [PictureH264; 32] = [build_invalid_pic();32];
    if let Some((id, m)) = reference {
        ref_pic_list_0[0] = build_h264_pic(id, m);
    }
    let ref_pic_list_1: [PictureH264; 32] = [build_invalid_pic();32];
    let (l0, l1): (u8, u8) = if header.num_ref_idx_active_override_flag {
        (header.num_ref_idx_l0_active_minus1, header.num_ref_idx_l1_active_minus1)
    } else {
        (pps.num_ref_idx_l0_default_active_minus1, pps.num_ref_idx_l1_default_active_minus1)
    };
    BufferType::EncSliceParameter(
        EncSliceParameterBufferH264 {
            macroblock_address: header.first_mb_in_slice,
            num_macroblocks,
            macroblock_info: VA_INVALID_ID,
            slice_type: header.slice_type.value(),
            pic_parameter_set_id: pps.pic_parameter_set_id,
            idr_pic_id: header.idr_pic_id,
            pic_order_cnt_lsb: header.pic_order_cnt_lsb,
            delta_pic_order_cnt_bottom: header.delta_pic_order_cnt_bottom,
            delta_pic_order_cnt: header.delta_pic_order_cnt,
            direct_spatial_mv_pred_flag: header.direct_spatial_mv_pred_flag,
            num_ref_idx_active_override_flag: header.num_ref_idx_active_override_flag,
            num_ref_idx_l0_active_minus1: l0,
            num_ref_idx_l1_active_minus1: l1,
            ref_pic_list_0,
            ref_pic_list_1,
            luma_log2_weight_denom: header.pred_weight_table.luma_log2_weight_denom,
            chroma_log2_weight_denom: header.pred_weight_table.chroma_log2_weight_denom,
            luma_weight_l0_flag: 0,
            luma_weight_l0: header.pred_weight_table.luma_weight_l0,
            luma_offset_l0: [0i16;32],
            chroma_weight_l0_flag: 0,
            chroma_weight_l0: header.pred_weight_table.chroma_weight_l0,
            chroma_offset_l0: [[0i16;2];32],
            luma_weight_l1_flag: 0,
            luma_weight_l1: header.pred_weight_table.luma_weight_l1,
            luma_offset_l1: [0i16;32],
            chroma_weight_l1_flag: 0,
            chroma_weight_l1: header.pred_weight_table.chroma_weight_l1,
            chroma_offset_l1: [[0i16;2];32],
            cabac_init_idc: header.cabac_init_idc,
            slice_qp_delta: header.slice_qp_delta,
            disable_deblocking_filter_idc: header.disable_deblocking_filter_idc,
            slice_alpha_c0_offset_div2: header.slice_alpha_c0_offset_div2,
            slice_beta_offset_div2: header.slice_beta_offset_div2,
        },
    )
}

/// Returns the two buffers of a packed header: what it is, and its bytes.
pub fn packed_header(kind: EncPackedHeaderType, data: &[u8]) -> (r: (BufferType, BufferType))
    ensures
        r.0 == BufferType::EncPackedHeaderParameter(
            EncPackedHeaderParameter {
                kind,
                bit_length: (data@.len() * 8) as u32,
                has_emulation_bytes: true,
            },
        ),
        r.1 is EncPackedHeaderData,
        r.1->EncPackedHeaderData_0@ == data@,
{
    let bit_length: u32 = (data.len() as u128 * 8) as u32;
    let param = BufferType::EncPackedHeaderParameter(
        EncPackedHeaderParameter { kind, bit_length, has_emulation_bytes: true },
    );
    let mut bytes: Vec<u8> = Vec::new();
    bytes.extend_from_slice(data);
    assert(bytes@ =~= data@);
    (param, BufferType::EncPackedHeaderData(bytes))
}

/// The rate control of a frame: constant bitrate, within the quantizer
/// bounds, no frame dropped to meet it.
pub open spec fn rate_control(bits_per_second: u32, reset: bool) -> EncMiscParameterRateControl {
    EncMiscParameterRateControl {
        bits_per_second,
        target_percentage: 100,
        window_size: RATE_CONTROL_WINDOW_MS,
        initial_qp: ((MIN_QP + MAX_QP) / 2) as u32,
        min_qp: MIN_QP as u32,
        basic_unit_size: 0,
        rc_flags: RcFlags {
            reset,
            disable_frame_skip: true,
            disable_bit_stuffing: false,
            mb_rate_control: 0,
            temporal_id: 0,
            cfs_i_frames: false,
            enable_parallel_brc: false,
            enable_dynamic_scaling: false,
            frame_tolerance_mode: 0,
        },
        icq_quality_factor: 0,
        max_qp: MAX_QP as u32,
        quality_factor: 0,
        target_frame_size: 0,
    }
}

/// Returns the rate control of a frame.
pub fn build_rate_control(bits_per_second: u32, reset: bool) -> (r: BufferType)
    ensures
        r == BufferType::EncMiscParameter(
            EncMiscParameter::RateControl(rate_control(bits_per_second, reset)),
        ),
{
    BufferType::EncMiscParameter(
        EncMiscParameter::RateControl(
            EncMiscParameterRateControl {
                bits_per_second,
                target_percentage: 100,
                window_size: RATE_CONTROL_WINDOW_MS,
                initial_qp: ((MIN_QP + MAX_QP) / 2) as u32,
                min_qp: MIN_QP as u32,
                basic_unit_size: 0,
                // Do not let rate control drop a frame to meet the bitrate. A live
                // encoder has already admitted this frame into the media timeline.
                rc_flags: RcFlags {
                    reset,
                    disable_frame_skip: true,
                    disable_bit_stuffing: false,
                    mb_rate_control: 0,
                    temporal_id: 0,
                    cfs_i_frames: false,
                    enable_parallel_brc: false,
                    enable_dynamic_scaling: false,
                    frame_tolerance_mode: 0,
                },
                icq_quality_factor: 0,
                max_qp: MAX_QP as u32,
                quality_factor: 0,
                target_frame_size: 0,
            },
        ),
    )
}

/// Returns the frame rate of a frame.
pub fn build_frame_rate(framerate: u32) -> (r: BufferType)
    ensures
        r == BufferType::EncMiscParameter(
            EncMiscParameter::FrameRate(EncMiscParameterFrameRate { framerate, framerate_flags: 0 }),
        ),
{
    BufferType::EncMiscParameter(
        EncMiscParameter::FrameRate(EncMiscParameterFrameRate { framerate, framerate_flags: 0 }),
    )
}

} // verus!
