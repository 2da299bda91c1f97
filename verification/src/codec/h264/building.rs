//! What the builders come to: what was set is what is built.

use std::rc::Rc;

use vstd::arithmetic::power2;
use vstd::prelude::*;

use crate::codec::h264::golomb;
use crate::codec::h264::parser;
use crate::codec::h264::parser::HrdParams;
use crate::codec::h264::parser::Level;
use crate::codec::h264::parser::MaxLongTermFrameIdx;
use crate::codec::h264::parser::NaluType;
use crate::codec::h264::parser::Pps;
use crate::codec::h264::parser::PpsBuilder;
use crate::codec::h264::parser::PredWeightTable;
use crate::codec::h264::parser::Profile;
use crate::codec::h264::parser::RefPicMarking;
use crate::codec::h264::parser::SliceHeader;
use crate::codec::h264::parser::SliceHeaderBuilder;
use crate::codec::h264::parser::SliceType;
use crate::codec::h264::parser::Sps;
use crate::codec::h264::parser::SpsBuilder;
use crate::codec::h264::parser::VuiParams;

verus! {

/// Levels, profiles and the types of slices and of NAL units go by the
/// numbers of the standard.
pub proof fn the_numbers_go_by_the_standard(
    level: Level,
    level_number: u8,
    profile: Profile,
    profile_number: u8,
    slice: SliceType,
    slice_number: u8,
    unit: NaluType,
    unit_number: u8,
)
    requires
        call_ensures(Level::value, (level,), level_number),
        call_ensures(Profile::value, (profile,), profile_number),
        call_ensures(SliceType::value, (slice,), slice_number),
        call_ensures(NaluType::value, (unit,), unit_number),
    ensures
        level_number == match level {
            Level::L1 => 10,
            Level::L1B => 9,
            Level::L1_1 => 11,
            Level::L1_2 => 12,
            Level::L1_3 => 13,
            Level::L2_0 => 20,
            Level::L2_1 => 21,
            Level::L2_2 => 22,
            Level::L3 => 30,
            Level::L3_1 => 31,
            Level::L3_2 => 32,
            Level::L4 => 40,
            Level::L4_1 => 41,
            Level::L4_2 => 42,
            Level::L5 => 50,
            Level::L5_1 => 51,
            Level::L5_2 => 52,
            Level::L6 => 60,
            Level::L6_1 => 61,
            Level::L6_2 => 62u8,
        },
        profile == Profile::Baseline ==> profile_number == 66,
        profile == Profile::Main ==> profile_number == 77,
        profile == Profile::Extended ==> profile_number == 88,
        profile == Profile::High ==> profile_number == 100,
        profile == Profile::High10 ==> profile_number == 110,
        profile == Profile::High422P ==> profile_number == 122,
        slice == SliceType::P ==> slice_number == 0,
        slice == SliceType::B ==> slice_number == 1,
        slice == SliceType::I ==> slice_number == 2,
        slice == SliceType::Sp ==> slice_number == 3,
        slice == SliceType::Si ==> slice_number == 4,
        unit == NaluType::Slice ==> unit_number == 1,
        unit == NaluType::SliceIdr ==> unit_number == 5,
        unit == NaluType::Sps ==> unit_number == 7,
        unit == NaluType::Pps ==> unit_number == 8,
{
}

/// What is counted modulo a power of two has as many bits as the power has
/// zeros: the count was asked for, or the next lower power of two.
pub proof fn a_count_has_as_many_bits_as_it_takes(
    builder: SpsBuilder,
    value: u32,
    by_frame: SpsBuilder,
    by_order: SpsBuilder,
)
    requires
        value >= 16,
        call_ensures(SpsBuilder::max_frame_num, (builder, value), by_frame),
        call_ensures(SpsBuilder::max_pic_order_cnt_lsb, (builder, value), by_order),
    ensures
        ({
            let bits = (by_frame.sps().log2_max_frame_num_minus4 + 4) as nat;
            power2::pow2(bits) <= value < 2 * power2::pow2(bits)
        }),
        ({
            let bits = (by_order.sps().log2_max_pic_order_cnt_lsb_minus4 + 4) as nat;
            power2::pow2(bits) <= value < 2 * power2::pow2(bits)
        }),
        by_frame.sps() == (Sps {
            log2_max_frame_num_minus4: by_frame.sps().log2_max_frame_num_minus4,
            ..builder.sps()
        }),
        by_order.sps() == (Sps {
            log2_max_pic_order_cnt_lsb_minus4: by_order.sps().log2_max_pic_order_cnt_lsb_minus4,
            ..builder.sps()
        }),
{
    golomb::lemma_bit_length(value as nat);
    golomb::lemma_leading_zeros(value);
    let n = golomb::bit_length(value as nat);
    power2::lemma2_to64();
    power2::lemma_pow2_unfold(n);
    vstd::std_specs::bits::axiom_u32_leading_zeros(value);
    if n < 5 {
        if n < 4 {
            power2::lemma_pow2_strictly_increases(n, 4);
        }
        assert(power2::pow2(n) <= 16);
    }
}

/// The luma samples in a column of chroma.
pub open spec fn across(sps: Sps) -> int {
    if sps.chroma_format_idc == 1 || sps.chroma_format_idc == 2 {
        2
    } else {
        1
    }
}

/// The luma samples in a row of chroma, of both fields where there are two.
pub open spec fn down(sps: Sps) -> int {
    if sps.chroma_format_idc == 1 {
        if sps.frame_mbs_only_flag {
            2
        } else {
            4
        }
    } else if sps.frame_mbs_only_flag {
        1
    } else {
        2
    }
}

/// The size that was set is the size that is shown, rounded up to what can be
/// cropped: whole chroma samples, and pairs of rows where there are fields.
pub proof fn a_size_is_what_is_shown(
    builder: SpsBuilder,
    width: u32,
    height: u32,
    sized: SpsBuilder,
)
    requires
        1 <= width <= 1_048_560,
        1 <= height <= 1_048_560,
        builder.sps().chroma_format_idc <= 3,
        !builder.sps().frame_cropping_flag,
        call_ensures(SpsBuilder::resolution, (builder, width, height), sized),
    ensures
        ({
            let (before, after) = (builder.sps(), sized.sps());
            let covered = 16 * (after.pic_width_in_mbs_minus1 + 1);
            let cropped = across(before) * after.frame_crop_right_offset;
            &&& width <= covered < width + 16
            &&& !after.frame_cropping_flag ==> covered == width
            &&& after.frame_cropping_flag ==> after.frame_crop_left_offset == 0
            &&& after.frame_cropping_flag ==> width <= covered - cropped < width + across(before)
        }),
        ({
            let (before, after) = (builder.sps(), sized.sps());
            let covered = 16 * (after.pic_height_in_map_units_minus1 + 1);
            let cropped = down(before) * after.frame_crop_bottom_offset;
            &&& height <= covered < height + 16
            &&& !after.frame_cropping_flag ==> covered == height
            &&& after.frame_cropping_flag ==> after.frame_crop_top_offset == 0
            &&& after.frame_cropping_flag ==> height <= covered - cropped < height + down(before)
        }),
        ({
            let (before, after) = (builder.sps(), sized.sps());
            after == (Sps {
                pic_width_in_mbs_minus1: after.pic_width_in_mbs_minus1,
                pic_height_in_map_units_minus1: after.pic_height_in_map_units_minus1,
                frame_cropping_flag: after.frame_cropping_flag,
                frame_crop_left_offset: after.frame_crop_left_offset,
                frame_crop_right_offset: after.frame_crop_right_offset,
                frame_crop_top_offset: after.frame_crop_top_offset,
                frame_crop_bottom_offset: after.frame_crop_bottom_offset,
                ..before
            })
        }),
{
    let (before, after) = (builder.sps(), sized.sps());
    let right = 16 * parser::macroblocks(width as int) - width;
    let bottom = 16 * parser::macroblocks(height as int) - height;
    assert(0 <= right < 16 && 0 <= bottom < 16);
    let (unit_x, unit_y) = (parser::crop_unit_x(before), parser::crop_unit_y(before));
    assert(unit_x == 1 || unit_x == 2);
    assert(unit_y == 1 || unit_y == 2 || unit_y == 4);
    let (r, b) = (after.frame_crop_right_offset, after.frame_crop_bottom_offset);
    assert(unit_x == across(before) && unit_y == down(before));
    if right != 0 || bottom != 0 {
        if unit_x == 2 {
            assert(r == right / 2 && unit_x * r == 2 * r);
        } else {
            assert(r == right / 1 && unit_x * r == r);
        }
        if unit_y == 4 {
            assert(b == bottom / 4 && unit_y * b == 4 * b);
        } else if unit_y == 2 {
            assert(b == bottom / 2 && unit_y * b == 2 * b);
        } else {
            assert(b == bottom / 1 && unit_y * b == b);
        }
    }
}

/// A sample aspect ratio goes by the index that stands for it in Table E-1,
/// and by its lengths where none does.
pub proof fn a_ratio_goes_by_its_index(
    builder: SpsBuilder,
    width: u16,
    height: u16,
    shaped: SpsBuilder,
    other: u8,
)
    requires
        call_ensures(SpsBuilder::aspect_ratio, (builder, width, height), shaped),
    ensures
        ({
            let vui = shaped.sps().vui_parameters;
            &&& shaped.sps().vui_parameters_present_flag
            &&& vui.aspect_ratio_info_present_flag
            &&& vui.aspect_ratio_idc != 255 ==> parser::indexed_ratio(vui.aspect_ratio_idc)
                == Some((width, height))
            &&& vui.aspect_ratio_idc == 255 ==> {
                &&& (vui.sar_width, vui.sar_height) == (width, height)
                &&& parser::indexed_ratio(other) != Some((width, height))
            }
        }),
{
    parser::an_index_stands_for_its_ratio(width, height, other);
}

/// What is set of the usability information is what is there, and says so.
pub proof fn what_is_set_of_the_usability_information_is_there(
    builder: SpsBuilder,
    num_units_in_tick: u32,
    time_scale: u32,
    fixed: bool,
    timed: SpsBuilder,
    full_range: bool,
    numbers: (u8, u8, u8),
    colored: SpsBuilder,
    frames: u32,
    reordered: SpsBuilder,
    buffered: SpsBuilder,
)
    requires
        call_ensures(
            SpsBuilder::timing_info,
            (builder, num_units_in_tick, time_scale, fixed),
            timed,
        ),
        call_ensures(
            SpsBuilder::video_signal_type,
            (builder, full_range, numbers.0, numbers.1, numbers.2),
            colored,
        ),
        call_ensures(SpsBuilder::max_num_reorder_frames, (builder, frames), reordered),
        call_ensures(SpsBuilder::max_dec_frame_buffering, (builder, frames), buffered),
    ensures
        ({
            let vui = timed.sps().vui_parameters;
            &&& timed.sps().vui_parameters_present_flag && vui.timing_info_present_flag
            &&& vui.num_units_in_tick == num_units_in_tick && vui.time_scale == time_scale
            &&& vui.fixed_frame_rate_flag == fixed
        }),
        ({
            let vui = colored.sps().vui_parameters;
            &&& colored.sps().vui_parameters_present_flag
            &&& vui.video_signal_type_present_flag && vui.colour_description_present_flag
            &&& vui.video_full_range_flag == full_range
            &&& vui.colour_primaries == numbers.0
            &&& vui.transfer_characteristics == numbers.1
            &&& vui.matrix_coefficients == numbers.2
            &&& vui.video_format == builder.sps().vui_parameters.video_format
        }),
        ({
            let vui = reordered.sps().vui_parameters;
            &&& reordered.sps().vui_parameters_present_flag && vui.bitstream_restriction_flag
            &&& vui.max_num_reorder_frames == frames
            &&& vui.max_dec_frame_buffering
                == builder.sps().vui_parameters.max_dec_frame_buffering
        }),
        ({
            let vui = buffered.sps().vui_parameters;
            &&& buffered.sps().vui_parameters_present_flag && vui.bitstream_restriction_flag
            &&& vui.max_dec_frame_buffering == frames
            &&& vui.max_num_reorder_frames == builder.sps().vui_parameters.max_num_reorder_frames
        }),
{
}

/// What is set of a sequence parameter set is what is there, and nothing else
/// of it changes.
pub proof fn what_is_set_of_a_sequence_is_there(
    builder: SpsBuilder,
    value: u8,
    flag: bool,
    level: Level,
    profile: Profile,
    set: (SpsBuilder, SpsBuilder, SpsBuilder, SpsBuilder, SpsBuilder),
    flagged: (SpsBuilder, SpsBuilder),
    leveled: SpsBuilder,
    profiled: SpsBuilder,
    built: Rc<Sps>,
)
    requires
        call_ensures(SpsBuilder::seq_parameter_set_id, (builder, value), set.0),
        call_ensures(SpsBuilder::chroma_format_idc, (builder, value), set.1),
        call_ensures(SpsBuilder::pic_order_cnt_type, (builder, value), set.2),
        call_ensures(SpsBuilder::max_num_ref_frames, (builder, value), set.3),
        call_ensures(SpsBuilder::frame_mbs_only_flag, (builder, flag), flagged.0),
        call_ensures(SpsBuilder::direct_8x8_inference_flag, (builder, flag), flagged.1),
        call_ensures(SpsBuilder::level_idc, (builder, level), leveled),
        call_ensures(SpsBuilder::profile_idc, (builder, profile), profiled),
        call_ensures(SpsBuilder::build, (builder,), built),
    ensures
        set.0.sps() == (Sps { seq_parameter_set_id: value, ..builder.sps() }),
        set.1.sps() == (Sps { chroma_format_idc: value, ..builder.sps() }),
        set.2.sps() == (Sps { pic_order_cnt_type: value, ..builder.sps() }),
        set.3.sps() == (Sps { max_num_ref_frames: value, ..builder.sps() }),
        flagged.0.sps() == (Sps { frame_mbs_only_flag: flag, ..builder.sps() }),
        flagged.1.sps() == (Sps { direct_8x8_inference_flag: flag, ..builder.sps() }),
        leveled.sps() == (Sps { level_idc: level, ..builder.sps() }),
        profiled.sps() == (Sps { profile_idc: profiled.sps().profile_idc, ..builder.sps() }),
        profile == Profile::Main ==> profiled.sps().profile_idc == 77,
        profile == Profile::Baseline ==> profiled.sps().profile_idc == 66,
        profile == Profile::High ==> profiled.sps().profile_idc == 100,
        *built == builder.sps(),
{
}

/// A bit depth is counted from eight.
pub proof fn a_bit_depth_is_counted_from_eight(
    builder: SpsBuilder,
    value: u8,
    luma: SpsBuilder,
    chroma: SpsBuilder,
)
    requires
        value >= 8,
        call_ensures(SpsBuilder::bit_depth_luma, (builder, value), luma),
        call_ensures(SpsBuilder::bit_depth_chroma, (builder, value), chroma),
    ensures
        luma.sps().bit_depth_luma_minus8 + 8 == value,
        luma.sps().bit_depth_chroma_minus8 == builder.sps().bit_depth_chroma_minus8,
        chroma.sps().bit_depth_chroma_minus8 + 8 == value,
        chroma.sps().bit_depth_luma_minus8 == builder.sps().bit_depth_luma_minus8,
{
}

/// What is set of a picture parameter set is what is there, and nothing else
/// of it changes.
pub proof fn what_is_set_of_a_picture_is_there(
    builder: PpsBuilder,
    value: u8,
    flag: bool,
    set: (PpsBuilder, PpsBuilder),
    flagged: (PpsBuilder, PpsBuilder, PpsBuilder),
    built: Rc<Pps>,
)
    requires
        call_ensures(PpsBuilder::pic_parameter_set_id, (builder, value), set.0),
        call_ensures(PpsBuilder::num_ref_idx_l1_default_active_minus1, (builder, value), set.1),
        call_ensures(PpsBuilder::entropy_coding_mode_flag, (builder, flag), flagged.0),
        call_ensures(PpsBuilder::transform_8x8_mode_flag, (builder, flag), flagged.1),
        call_ensures(
            PpsBuilder::deblocking_filter_control_present_flag,
            (builder, flag),
            flagged.2,
        ),
        call_ensures(PpsBuilder::build, (builder,), built),
    ensures
        set.0.pps() == (Pps { pic_parameter_set_id: value, ..builder.pps() }),
        set.1.pps() == (Pps { num_ref_idx_l1_default_active_minus1: value, ..builder.pps() }),
        flagged.0.pps() == (Pps { entropy_coding_mode_flag: flag, ..builder.pps() }),
        flagged.1.pps() == (Pps { transform_8x8_mode_flag: flag, ..builder.pps() }),
        flagged.2.pps() == (Pps {
            deblocking_filter_control_present_flag: flag,
            ..builder.pps()
        }),
        *built == builder.pps(),
{
}

/// A quantizer is counted from 26, and references from one.
pub proof fn a_quantizer_is_counted_from_its_middle(
    builder: PpsBuilder,
    value: u8,
    quantized: PpsBuilder,
    referring: PpsBuilder,
)
    requires
        1 <= value <= 51,
        call_ensures(PpsBuilder::pic_init_qp, (builder, value), quantized),
        call_ensures(PpsBuilder::num_ref_idx_l0_default_active, (builder, value), referring),
    ensures
        quantized.pps().pic_init_qp_minus26 + 26 == value,
        quantized.pps() == (Pps {
            pic_init_qp_minus26: quantized.pps().pic_init_qp_minus26,
            ..builder.pps()
        }),
        referring.pps().num_ref_idx_l0_default_active_minus1 + 1 == value,
        referring.pps() == (Pps {
            num_ref_idx_l0_default_active_minus1:
                referring.pps().num_ref_idx_l0_default_active_minus1,
            ..builder.pps()
        }),
{
}

/// A slice header starts with what the picture says, and has what is set.
pub proof fn what_is_set_of_a_slice_is_there(
    pps: &Pps,
    started: SliceHeaderBuilder,
    builder: SliceHeaderBuilder,
    slice_type: SliceType,
    typed: SliceHeaderBuilder,
    address: u32,
    placed: SliceHeaderBuilder,
    value: u16,
    numbered: SliceHeaderBuilder,
    ordered: SliceHeaderBuilder,
    built: SliceHeader,
)
    requires
        call_ensures(SliceHeaderBuilder::new, (pps,), started),
        call_ensures(SliceHeaderBuilder::slice_type, (builder, slice_type), typed),
        call_ensures(SliceHeaderBuilder::first_mb_in_slice, (builder, address), placed),
        call_ensures(SliceHeaderBuilder::frame_num, (builder, value), numbered),
        call_ensures(SliceHeaderBuilder::pic_order_cnt_lsb, (builder, value), ordered),
        call_ensures(SliceHeaderBuilder::build, (builder,), built),
    ensures
        ({
            let header = started.header();
            &&& header.pic_parameter_set_id == pps.pic_parameter_set_id
            &&& header.num_ref_idx_l0_active_minus1 == pps.num_ref_idx_l0_default_active_minus1
            &&& header.num_ref_idx_l1_active_minus1 == pps.num_ref_idx_l1_default_active_minus1
            &&& !header.num_ref_idx_active_override_flag
            &&& header.frame_num == 0 && header.pic_order_cnt_lsb == 0
            &&& header.first_mb_in_slice == 0 && header.idr_pic_id == 0
            &&& header.slice_qp_delta == 0 && header.disable_deblocking_filter_idc == 0
            &&& !header.ref_pic_list_modification_flag_l0
            &&& !header.dec_ref_pic_marking.adaptive_ref_pic_marking_mode_flag
        }),
        typed.header() == (SliceHeader { slice_type, ..builder.header() }),
        placed.header() == (SliceHeader { first_mb_in_slice: address, ..builder.header() }),
        numbered.header() == (SliceHeader { frame_num: value, ..builder.header() }),
        ordered.header() == (SliceHeader { pic_order_cnt_lsb: value, ..builder.header() }),
        built == builder.header(),
{
}

/// Usability information that says nothing is what a decoder infers where
/// nothing is said.
pub proof fn what_is_not_said_is_what_is_inferred(blank: VuiParams, hrd: HrdParams)
    requires
        call_ensures(VuiParams::new, (), blank),
        call_ensures(HrdParams::new, (), hrd),
    ensures
        !blank.aspect_ratio_info_present_flag && blank.aspect_ratio_idc == 0,
        !blank.overscan_info_present_flag && !blank.video_signal_type_present_flag,
        blank.video_format == 5 && !blank.video_full_range_flag,
        !blank.colour_description_present_flag,
        blank.colour_primaries == 2 && blank.transfer_characteristics == 2,
        blank.matrix_coefficients == 2,
        !blank.chroma_loc_info_present_flag,
        blank.chroma_sample_loc_type_top_field == 0,
        blank.chroma_sample_loc_type_bottom_field == 0,
        !blank.timing_info_present_flag && !blank.fixed_frame_rate_flag,
        !blank.nal_hrd_parameters_present_flag && !blank.vcl_hrd_parameters_present_flag,
        !blank.pic_struct_present_flag && !blank.bitstream_restriction_flag,
        blank.motion_vectors_over_pic_boundaries_flag,
        blank.max_bytes_per_pic_denom == 2 && blank.max_bits_per_mb_denom == 1,
        blank.log2_max_mv_length_horizontal == 16 && blank.log2_max_mv_length_vertical == 16,
        hrd.cpb_cnt_minus1 == 0 && hrd.bit_rate_scale == 0 && hrd.cpb_size_scale == 0,
        hrd.time_offset_length == 0,
{
}

/// A blank parameter set says nothing: it has no lists, no cropping, no
/// weights and no slice groups, and a picture refers to its sequence.
pub proof fn a_blank_set_says_nothing(
    sps: Sps,
    referred: Rc<Sps>,
    pps: Pps,
    started: SpsBuilder,
    picture: PpsBuilder,
)
    requires
        call_ensures(Sps::new, (), sps),
        call_ensures(Pps::new, (referred,), pps),
        call_ensures(SpsBuilder::new, (), started),
        call_ensures(PpsBuilder::new, (referred,), picture),
    ensures
        !sps.seq_scaling_matrix_present_flag && !sps.frame_cropping_flag,
        !sps.vui_parameters_present_flag && !started.sps().vui_parameters_present_flag,
        !started.sps().frame_cropping_flag && !started.sps().seq_scaling_matrix_present_flag,
        !started.sps().separate_colour_plane_flag,
        !started.sps().gaps_in_frame_num_value_allowed_flag,
        *pps.sps == *referred && *picture.pps().sps == *referred,
        pps.seq_parameter_set_id == referred.seq_parameter_set_id,
        picture.pps().seq_parameter_set_id == referred.seq_parameter_set_id,
        !pps.weighted_pred_flag && pps.weighted_bipred_idc == 0,
        !picture.pps().weighted_pred_flag && picture.pps().weighted_bipred_idc == 0,
        pps.num_slice_groups_minus1 == 0 && picture.pps().num_slice_groups_minus1 == 0,
        !pps.pic_scaling_matrix_present_flag && !picture.pps().pic_scaling_matrix_present_flag,
        !picture.pps().bottom_field_pic_order_in_frame_present_flag,
        !picture.pps().redundant_pic_cnt_present_flag,
        !picture.pps().constrained_intra_pred_flag,
        picture.pps().chroma_qp_index_offset == 0,
        picture.pps().second_chroma_qp_index_offset == 0,
{
}

/// A blank slice header has no weights, no modifications and no markings, and
/// every number zero.
pub proof fn a_blank_slice_says_nothing(
    header: SliceHeader,
    table: PredWeightTable,
    marking: RefPicMarking,
    i: int,
)
    requires
        call_ensures(SliceHeader::new, (), header),
        call_ensures(PredWeightTable::new, (), table),
        call_ensures(RefPicMarking::new, (), marking),
        0 <= i < 32,
    ensures
        header.frame_num == 0 && header.pic_order_cnt_lsb == 0 && header.idr_pic_id == 0,
        !header.field_pic_flag && !header.bottom_field_flag,
        header.ref_pic_list_modification_l0@.len() == 0,
        header.ref_pic_list_modification_l1@.len() == 0,
        header.dec_ref_pic_marking.inner@.len() == 0,
        header.slice_qp_delta == 0 && header.cabac_init_idc == 0,
        header.slice_alpha_c0_offset_div2 == 0 && header.slice_beta_offset_div2 == 0,
        table.luma_log2_weight_denom == 0 && table.chroma_log2_weight_denom == 0,
        table.luma_weight_l0[i] == 0 && table.luma_offset_l0[i] == 0,
        table.luma_weight_l1[i] == 0 && table.luma_offset_l1[i] == 0,
        !marking.no_output_of_prior_pics_flag && !marking.long_term_reference_flag,
        !marking.adaptive_ref_pic_marking_mode_flag && marking.inner@.len() == 0,
{
}

/// Where the color planes are coded apart each is coded as if there were no
/// chroma. A number of long term frame indices is one more than the last.
pub proof fn planes_coded_apart_have_no_chroma(
    sps: &Sps,
    array_type: u8,
    index: MaxLongTermFrameIdx,
    count: u32,
)
    requires
        call_ensures(Sps::chroma_array_type, (sps,), array_type),
        index != MaxLongTermFrameIdx::Idx(u32::MAX),
        call_ensures(MaxLongTermFrameIdx::to_value_plus1, (index,), count),
    ensures
        sps.separate_colour_plane_flag ==> array_type == 0,
        !sps.separate_colour_plane_flag ==> array_type == sps.chroma_format_idc,
        index == MaxLongTermFrameIdx::NoLongTermFrameIndices ==> count == 0,
        index matches MaxLongTermFrameIdx::Idx(last) ==> count == last + 1,
{
}

} // verus!
