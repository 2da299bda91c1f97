//! The syntax tables of H.264: which elements a parameter set or a slice
//! header is made of, in order, and how an element is coded.

use vstd::prelude::*;

use crate::bitstream_utils;
use crate::bitstream_utils::BitWriterError;
use crate::codec::h264::emulation::EmulationPrevention;
use crate::codec::h264::golomb;
use crate::codec::h264::nalu_writer::NaluWriterError;
use crate::codec::h264::parser::HrdParams;
use crate::codec::h264::parser::NaluType;
use crate::codec::h264::parser::Pps;
use crate::codec::h264::parser::PredWeightTable;
use crate::codec::h264::parser::RefPicListModification;
use crate::codec::h264::parser::RefPicMarkingInner;
use crate::codec::h264::parser::SliceHeader;
use crate::codec::h264::parser::SliceType;
use crate::codec::h264::parser::Sps;
use crate::codec::h264::parser::VuiParams;
use crate::codec::h264::parser::DEFAULT_4X4_INTER;
use crate::codec::h264::parser::DEFAULT_4X4_INTRA;
use crate::codec::h264::parser::DEFAULT_8X8_INTER;
use crate::codec::h264::parser::DEFAULT_8X8_INTRA;
use crate::codec::h264::synthesizer::SynthesizerError;
use crate::encode::IsReference;

verus! {

/// One syntax element with its value.
#[derive(Copy, Clone, Debug, PartialEq, Eq, Structural)]
pub enum Element {
    /// `u(n)` or `f(n)`: the low `n` bits of the value.
    U(usize, u32),
    /// `ue(v)`.
    Ue(u32),
    /// `se(v)`.
    Se(i32),
    /// Something that the syntax has, but that is not supported.
    Unsupported,
}

impl Element {
    /// The bits of an element that can be written.
    pub open spec fn code(self) -> Seq<bool> {
        match self {
            Element::U(bits, value) => bitstream_utils::value_bits(bits as nat, value as nat),
            Element::Ue(value) => golomb::exp_golomb(value as nat),
            Element::Se(value) => golomb::exp_golomb(golomb::signed_code(value as int)),
            Element::Unsupported => seq![],
        }
    }

    /// Why an element cannot be written.
    pub open spec fn failure(self) -> Option<SynthesizerError> {
        match self {
            Element::U(bits, _) => if bits > 32 {
                Some(
                    SynthesizerError::NaluWriter(
                        NaluWriterError::BitWriterError(BitWriterError::InvalidBitCount),
                    ),
                )
            } else {
                None
            },
            Element::Ue(value) => if value == u32::MAX {
                Some(SynthesizerError::NaluWriter(NaluWriterError::Overflow))
            } else {
                None
            },
            Element::Se(_) => None,
            Element::Unsupported => Some(SynthesizerError::Unsupported),
        }
    }
}

/// Why `elements` cannot all be written: what is wrong with the first that cannot.
pub open spec fn failure(elements: Seq<Element>) -> Option<SynthesizerError>
    decreases elements.len(),
{
    if elements.len() == 0 {
        None
    } else if failure(elements.drop_last()) is Some {
        failure(elements.drop_last())
    } else {
        elements.last().failure()
    }
}

/// The bits of `elements`, up to the first that cannot be written.
pub open spec fn encoded(elements: Seq<Element>) -> Seq<bool>
    decreases elements.len(),
{
    if elements.len() == 0 {
        seq![]
    } else if failure(elements) is Some {
        encoded(elements.drop_last())
    } else {
        encoded(elements.drop_last()) + elements.last().code()
    }
}

/// `bits` with the stop bit and the zero bits up to the end of the byte.
pub open spec fn with_trailing_bits(bits: Seq<bool>) -> Seq<bool> {
    let stopped = bits.push(true);
    stopped + Seq::new(bitstream_utils::padding(stopped) as nat, |i: int| false)
}

/// The payload of a NAL unit of `elements`. One that broke off has no trailing bits.
pub open spec fn payload(elements: Seq<Element>) -> Seq<bool> {
    if failure(elements) is None {
        with_trailing_bits(encoded(elements))
    } else {
        encoded(elements)
    }
}

/// Whether `elements` could all be written.
pub open spec fn outcome(elements: Seq<Element>) -> Result<(), SynthesizerError> {
    match failure(elements) {
        None => Ok(()),
        Some(err) => Err(err),
    }
}

/// A NAL unit in the byte stream: the start code, the header, and the
/// payload, protected or not.
pub open spec fn nal_unit(
    ref_idc: u8,
    type_: NaluType,
    payload: Seq<bool>,
    ep_enabled: bool,
) -> Seq<u8> {
    EmulationPrevention::header(ref_idc, type_.number()) + EmulationPrevention::protected(
        bitstream_utils::pack(payload),
        ep_enabled,
    )
}

/// A flag.
pub open spec fn flag(value: bool) -> Element {
    Element::U(1, if value { 1u32 } else { 0u32 })
}

/// `elements`, if they are there.
pub open spec fn when(present: bool, elements: Seq<Element>) -> Seq<Element> {
    if present {
        elements
    } else {
        seq![]
    }
}

/// How many of the values of a scaling list are sent: up to the one that
/// all behind it repeat. Looked for among the first `n`.
pub open spec fn run_length(list: Seq<u8>, n: nat) -> nat
    decreases n,
{
    if n <= 1 || list[n - 2] != list[n - 1] {
        n
    } else {
        run_length(list, (n - 1) as nat)
    }
}

/// The value in front of the one at `i`, which the difference is taken from.
pub open spec fn previous_scale(list: Seq<u8>, i: int) -> int {
    if i == 0 {
        8
    } else {
        list[i - 1] as int
    }
}

/// `scaling_list()`, 7.3.2.1.1.1: one element that asks for the default
/// list, or the differences, ended by the one to zero where the rest repeats.
pub open spec fn scaling_list_syntax(list: Seq<u8>, default: Seq<u8>) -> Seq<Element> {
    if list == default {
        seq![Element::Se((-8) as i32)]
    } else {
        let run = run_length(list, list.len());
        Seq::new(run, |i: int| Element::Se((list[i] - previous_scale(list, i)) as i32)) + when(
            run < list.len(),
            seq![Element::Se((-previous_scale(list, run as int)) as i32)],
        )
    }
}

/// The default of the scaling list at `i`, Table 7-2.
pub open spec fn default_list(i: int) -> Seq<u8> {
    if i < 3 {
        DEFAULT_4X4_INTRA@
    } else if i < 6 {
        DEFAULT_4X4_INTER@
    } else if i % 2 == 0 {
        DEFAULT_8X8_INTRA@
    } else {
        DEFAULT_8X8_INTER@
    }
}

/// A list of zeros stands for one that is not present.
pub open spec fn absent(list: Seq<u8>) -> bool {
    forall|i: int| 0 <= i < list.len() ==> list[i] == 0
}

/// A scaling list and the flag in front of it.
pub open spec fn optional_list_syntax(list: Seq<u8>, default: Seq<u8>) -> Seq<Element> {
    seq![flag(!absent(list))] + when(!absent(list), scaling_list_syntax(list, default))
}

/// The first `n` scaling lists: six of 4x4, then the 8x8 ones.
pub open spec fn scaling_lists_syntax(
    lists_4x4: [[u8; 16]; 6],
    lists_8x8: [[u8; 64]; 6],
    n: nat,
) -> Seq<Element>
    decreases n,
{
    if n == 0 {
        seq![]
    } else {
        let i = n - 1;
        let list = if i < 6 {
            lists_4x4[i]@
        } else {
            lists_8x8[i - 6]@
        };
        scaling_lists_syntax(lists_4x4, lists_8x8, i as nat) + optional_list_syntax(
            list,
            default_list(i),
        )
    }
}

/// The first `n` coded picture buffers of `hrd_parameters()`.
pub open spec fn cpb_syntax(hrd: HrdParams, n: nat) -> Seq<Element>
    decreases n,
{
    if n == 0 {
        seq![]
    } else {
        let i = n - 1;
        cpb_syntax(hrd, i as nat) + seq![
            Element::Ue(hrd.bit_rate_value_minus1[i]),
            Element::Ue(hrd.cpb_size_value_minus1[i]),
            flag(hrd.cbr_flag[i]),
        ]
    }
}

/// `hrd_parameters()`, E.1.2.
pub open spec fn hrd_syntax(hrd: HrdParams) -> Seq<Element> {
    seq![
        Element::Ue(hrd.cpb_cnt_minus1 as u32),
        Element::U(4, hrd.bit_rate_scale as u32),
        Element::U(4, hrd.cpb_size_scale as u32),
    ] + cpb_syntax(hrd, (hrd.cpb_cnt_minus1 + 1) as nat) + seq![
        Element::U(5, hrd.initial_cpb_removal_delay_length_minus1 as u32),
        Element::U(5, hrd.cpb_removal_delay_length_minus1 as u32),
        Element::U(5, hrd.dpb_output_delay_length_minus1 as u32),
        Element::U(5, hrd.time_offset_length as u32),
    ]
}

/// The sample aspect ratio in `vui_parameters()`.
pub open spec fn vui_aspect_syntax(vui: VuiParams) -> Seq<Element> {
    seq![flag(vui.aspect_ratio_info_present_flag)] + when(
        vui.aspect_ratio_info_present_flag,
        seq![Element::U(8, vui.aspect_ratio_idc as u32)] + when(
            vui.aspect_ratio_idc == 255,
            seq![Element::U(16, vui.sar_width as u32), Element::U(16, vui.sar_height as u32)],
        ),
    )
}

/// The overscan in `vui_parameters()`.
pub open spec fn vui_overscan_syntax(vui: VuiParams) -> Seq<Element> {
    seq![flag(vui.overscan_info_present_flag)] + when(
        vui.overscan_info_present_flag,
        seq![flag(vui.overscan_appropriate_flag)],
    )
}

/// The range and the color of the samples in `vui_parameters()`.
pub open spec fn vui_signal_syntax(vui: VuiParams) -> Seq<Element> {
    seq![flag(vui.video_signal_type_present_flag)] + when(
        vui.video_signal_type_present_flag,
        seq![
            Element::U(3, vui.video_format as u32),
            flag(vui.video_full_range_flag),
            flag(vui.colour_description_present_flag),
        ] + when(
            vui.colour_description_present_flag,
            seq![
                Element::U(8, vui.colour_primaries as u32),
                Element::U(8, vui.transfer_characteristics as u32),
                Element::U(8, vui.matrix_coefficients as u32),
            ],
        ),
    )
}

/// The place of the chroma samples in `vui_parameters()`.
pub open spec fn vui_chroma_loc_syntax(vui: VuiParams) -> Seq<Element> {
    seq![flag(vui.chroma_loc_info_present_flag)] + when(
        vui.chroma_loc_info_present_flag,
        seq![
            Element::Ue(vui.chroma_sample_loc_type_top_field as u32),
            Element::Ue(vui.chroma_sample_loc_type_bottom_field as u32),
        ],
    )
}

/// When the pictures are shown, in `vui_parameters()`.
pub open spec fn vui_timing_syntax(vui: VuiParams) -> Seq<Element> {
    seq![flag(vui.timing_info_present_flag)] + when(
        vui.timing_info_present_flag,
        seq![
            Element::U(32, vui.num_units_in_tick),
            Element::U(32, vui.time_scale),
            flag(vui.fixed_frame_rate_flag),
        ],
    )
}

/// The reference decoders in `vui_parameters()`.
pub open spec fn vui_hrd_syntax(vui: VuiParams) -> Seq<Element> {
    seq![flag(vui.nal_hrd_parameters_present_flag)] + when(
        vui.nal_hrd_parameters_present_flag,
        hrd_syntax(vui.nal_hrd_parameters),
    ) + seq![flag(vui.vcl_hrd_parameters_present_flag)] + when(
        vui.vcl_hrd_parameters_present_flag,
        hrd_syntax(vui.vcl_hrd_parameters),
    ) + when(
        vui.nal_hrd_parameters_present_flag || vui.vcl_hrd_parameters_present_flag,
        seq![flag(vui.low_delay_hrd_flag)],
    )
}

/// What the stream confines itself to, in `vui_parameters()`.
pub open spec fn vui_restriction_syntax(vui: VuiParams) -> Seq<Element> {
    seq![flag(vui.pic_struct_present_flag), flag(vui.bitstream_restriction_flag)] + when(
        vui.bitstream_restriction_flag,
        seq![
            flag(vui.motion_vectors_over_pic_boundaries_flag),
            Element::Ue(vui.max_bytes_per_pic_denom),
            Element::Ue(vui.max_bits_per_mb_denom),
            Element::Ue(vui.log2_max_mv_length_horizontal),
            Element::Ue(vui.log2_max_mv_length_vertical),
            Element::Ue(vui.max_num_reorder_frames),
            Element::Ue(vui.max_dec_frame_buffering),
        ],
    )
}

/// `vui_parameters()`, E.1.1.
pub open spec fn vui_syntax(vui: VuiParams) -> Seq<Element> {
    vui_aspect_syntax(vui) + vui_overscan_syntax(vui) + vui_signal_syntax(vui)
        + vui_chroma_loc_syntax(vui) + vui_timing_syntax(vui) + vui_hrd_syntax(vui)
        + vui_restriction_syntax(vui)
}

/// The profiles whose parameter sets speak of the chroma format.
pub open spec fn profile_has_chroma(profile_idc: u8) -> bool {
    profile_idc == 100 || profile_idc == 110 || profile_idc == 122 || profile_idc == 244
        || profile_idc == 44 || profile_idc == 83 || profile_idc == 86 || profile_idc == 118
        || profile_idc == 128 || profile_idc == 138 || profile_idc == 139 || profile_idc == 134
        || profile_idc == 135
}

/// The profile in `seq_parameter_set_data()`.
pub open spec fn sps_profile_syntax(sps: Sps) -> Seq<Element> {
    seq![
        Element::U(8, sps.profile_idc as u32),
        flag(sps.constraint_set0_flag),
        flag(sps.constraint_set1_flag),
        flag(sps.constraint_set2_flag),
        flag(sps.constraint_set3_flag),
        flag(sps.constraint_set4_flag),
        flag(sps.constraint_set5_flag),
        Element::U(2, 0),
    ]
}

/// The level and the id in `seq_parameter_set_data()`.
pub open spec fn sps_level_syntax(sps: Sps) -> Seq<Element> {
    seq![
        Element::U(8, sps.level_idc.number() as u32),
        Element::Ue(sps.seq_parameter_set_id as u32),
    ]
}

/// The chroma format and the scaling lists in `seq_parameter_set_data()`.
pub open spec fn sps_chroma_syntax(sps: Sps) -> Seq<Element> {
    seq![Element::Ue(sps.chroma_format_idc as u32)] + when(
        sps.chroma_format_idc == 3,
        seq![flag(sps.separate_colour_plane_flag)],
    ) + seq![
        Element::Ue(sps.bit_depth_luma_minus8 as u32),
        Element::Ue(sps.bit_depth_chroma_minus8 as u32),
        flag(sps.qpprime_y_zero_transform_bypass_flag),
        flag(sps.seq_scaling_matrix_present_flag),
    ] + when(
        sps.seq_scaling_matrix_present_flag,
        scaling_lists_syntax(
            sps.scaling_lists_4x4,
            sps.scaling_lists_8x8,
            if sps.chroma_format_idc != 3 {
                8
            } else {
                12
            },
        ),
    )
}

/// The picture order in `seq_parameter_set_data()`.
pub open spec fn sps_order_syntax(sps: Sps) -> Seq<Element> {
    seq![
        Element::Ue(sps.log2_max_frame_num_minus4 as u32),
        Element::Ue(sps.pic_order_cnt_type as u32),
    ] + if sps.pic_order_cnt_type == 0 {
        seq![Element::Ue(sps.log2_max_pic_order_cnt_lsb_minus4 as u32)]
    } else {
        when(
            sps.pic_order_cnt_type == 1,
            seq![
                flag(sps.delta_pic_order_always_zero_flag),
                Element::Se(sps.offset_for_non_ref_pic),
                Element::Se(sps.offset_for_top_to_bottom_field),
                Element::Ue(sps.num_ref_frames_in_pic_order_cnt_cycle as u32),
            ] + Seq::new(
                sps.num_ref_frames_in_pic_order_cnt_cycle as nat,
                |i: int| Element::Se(sps.offset_for_ref_frame[i]),
            ),
        )
    }
}

/// The frames in `seq_parameter_set_data()`.
pub open spec fn sps_frame_syntax(sps: Sps) -> Seq<Element> {
    seq![
        Element::Ue(sps.max_num_ref_frames as u32),
        flag(sps.gaps_in_frame_num_value_allowed_flag),
        Element::Ue(sps.pic_width_in_mbs_minus1 as u32),
        Element::Ue(sps.pic_height_in_map_units_minus1 as u32),
        flag(sps.frame_mbs_only_flag),
    ] + when(!sps.frame_mbs_only_flag, seq![flag(sps.mb_adaptive_frame_field_flag)])
}

/// The cropping in `seq_parameter_set_data()`.
pub open spec fn sps_crop_syntax(sps: Sps) -> Seq<Element> {
    seq![flag(sps.direct_8x8_inference_flag), flag(sps.frame_cropping_flag)] + when(
        sps.frame_cropping_flag,
        seq![
            Element::Ue(sps.frame_crop_left_offset),
            Element::Ue(sps.frame_crop_right_offset),
            Element::Ue(sps.frame_crop_top_offset),
            Element::Ue(sps.frame_crop_bottom_offset),
        ],
    )
}

/// `seq_parameter_set_data()`, 7.3.2.1.1.
pub open spec fn sps_syntax(sps: Sps) -> Seq<Element> {
    sps_profile_syntax(sps) + sps_level_syntax(sps) + when(
        profile_has_chroma(sps.profile_idc),
        sps_chroma_syntax(sps),
    ) + sps_order_syntax(sps) + sps_frame_syntax(sps) + sps_crop_syntax(sps) + seq![
        flag(sps.vui_parameters_present_flag),
    ] + when(sps.vui_parameters_present_flag, vui_syntax(sps.vui_parameters))
}

/// There are at most 32 coded picture buffers, or one of the first 32 cannot
/// be written and ends the output.
pub open spec fn hrd_in_range(hrd: HrdParams) -> bool {
    hrd.cpb_cnt_minus1 < 32 || failure(cpb_syntax(hrd, 32)) is Some
}

/// The reference decoders that are reached have their coded picture buffers.
pub open spec fn vui_in_range(vui: VuiParams) -> bool {
    &&& vui.nal_hrd_parameters_present_flag ==> hrd_in_range(vui.nal_hrd_parameters)
    &&& vui.vcl_hrd_parameters_present_flag ==> hrd_in_range(vui.vcl_hrd_parameters) || (
    vui.nal_hrd_parameters_present_flag && failure(hrd_syntax(vui.nal_hrd_parameters)) is Some)
}

/// The values of a sequence parameter set that have a code: the signed ones
/// that are sent are not the least `i32`, and there are at most 32 coded
/// picture buffers, unless the output ends in front of them.
pub open spec fn sps_in_range(sps: Sps) -> bool {
    &&& sps.pic_order_cnt_type == 1 ==> {
        &&& sps.offset_for_non_ref_pic != i32::MIN
        &&& sps.offset_for_top_to_bottom_field != i32::MIN
        &&& forall|i: int|
            0 <= i < sps.num_ref_frames_in_pic_order_cnt_cycle ==> sps.offset_for_ref_frame[i]
                != i32::MIN
    }
    &&& sps.vui_parameters_present_flag ==> vui_in_range(sps.vui_parameters) || failure(
        sps_crop_syntax(sps),
    ) is Some
}

/// The head of `pic_parameter_set_rbsp()`.
pub open spec fn pps_head_syntax(pps: Pps) -> Seq<Element> {
    seq![
        Element::Ue(pps.pic_parameter_set_id as u32),
        Element::Ue(pps.seq_parameter_set_id as u32),
        flag(pps.entropy_coding_mode_flag),
        flag(pps.bottom_field_pic_order_in_frame_present_flag),
        Element::Ue(pps.num_slice_groups_minus1),
    ] + when(pps.num_slice_groups_minus1 > 0, seq![Element::Unsupported])
}

/// The defaults for the slices in `pic_parameter_set_rbsp()`.
pub open spec fn pps_defaults_syntax(pps: Pps) -> Seq<Element> {
    seq![
        Element::Ue(pps.num_ref_idx_l0_default_active_minus1 as u32),
        Element::Ue(pps.num_ref_idx_l1_default_active_minus1 as u32),
        flag(pps.weighted_pred_flag),
        Element::U(2, pps.weighted_bipred_idc as u32),
        Element::Se(pps.pic_init_qp_minus26 as i32),
        Element::Se(pps.pic_init_qs_minus26 as i32),
        Element::Se(pps.chroma_qp_index_offset as i32),
        flag(pps.deblocking_filter_control_present_flag),
        flag(pps.constrained_intra_pred_flag),
        flag(pps.redundant_pic_cnt_present_flag),
    ]
}

/// Whether a picture parameter set says something that its extension is needed for.
pub open spec fn pps_is_extended(pps: Pps) -> bool {
    pps.transform_8x8_mode_flag || pps.pic_scaling_matrix_present_flag
        || pps.second_chroma_qp_index_offset != 0
}

/// The extension of `pic_parameter_set_rbsp()`.
pub open spec fn pps_extension_syntax(pps: Pps) -> Seq<Element> {
    seq![flag(pps.transform_8x8_mode_flag), flag(pps.pic_scaling_matrix_present_flag)] + when(
        pps.pic_scaling_matrix_present_flag,
        scaling_lists_syntax(
            pps.scaling_lists_4x4,
            pps.scaling_lists_8x8,
            if !pps.transform_8x8_mode_flag {
                6
            } else if pps.sps.chroma_format_idc != 3 {
                8
            } else {
                12
            },
        ),
    ) + seq![Element::Se(pps.second_chroma_qp_index_offset as i32)]
}

/// `pic_parameter_set_rbsp()`, 7.3.2.2. Slice groups are not supported.
pub open spec fn pps_syntax(pps: Pps) -> Seq<Element> {
    pps_head_syntax(pps) + pps_defaults_syntax(pps) + when(
        pps_is_extended(pps),
        pps_extension_syntax(pps),
    )
}

/// One step of `ref_pic_list_modification()`.
pub open spec fn modification_syntax(step: RefPicListModification) -> Seq<Element> {
    let idc = step.modification_of_pic_nums_idc;
    seq![Element::Ue(idc as u32)] + when(
        idc == 0 || idc == 1,
        seq![Element::Ue(step.abs_diff_pic_num_minus1)],
    ) + when(idc == 2, seq![Element::Ue(step.long_term_pic_num)])
}

/// The steps of `ref_pic_list_modification()`.
pub open spec fn modifications_syntax(steps: Seq<RefPicListModification>) -> Seq<Element>
    decreases steps.len(),
{
    if steps.len() == 0 {
        seq![]
    } else {
        modifications_syntax(steps.drop_last()) + modification_syntax(steps.last())
    }
}

/// The modification of one reference list, with its flag and its end.
pub open spec fn list_modification_syntax(
    modified: bool,
    steps: Seq<RefPicListModification>,
) -> Seq<Element> {
    seq![flag(modified)] + when(modified, modifications_syntax(steps) + seq![Element::Ue(3)])
}

/// `ref_pic_list_modification()`, 7.3.3.1.
pub open spec fn ref_pic_list_modification_syntax(hdr: SliceHeader) -> Seq<Element> {
    when(
        hdr.slice_type != SliceType::I && hdr.slice_type != SliceType::Si,
        list_modification_syntax(
            hdr.ref_pic_list_modification_flag_l0,
            hdr.ref_pic_list_modification_l0@,
        ),
    ) + when(
        hdr.slice_type == SliceType::B,
        list_modification_syntax(
            hdr.ref_pic_list_modification_flag_l1,
            hdr.ref_pic_list_modification_l1@,
        ),
    )
}

/// The weight that stands for no weighting, as an `i16` holds it.
pub open spec fn default_weight(log2_denom: u8) -> int {
    if log2_denom < 15 {
        vstd::arithmetic::power2::pow2(log2_denom as nat) as int
    } else {
        -32768
    }
}

/// The weights of one reference in `pred_weight_table()`: luma, and chroma where there is any.
pub open spec fn weight_syntax(
    pwt: PredWeightTable,
    has_chroma: bool,
    luma_weight: i16,
    luma_offset: i8,
    chroma_weight: [i16; 2],
    chroma_offset: [i8; 2],
) -> Seq<Element> {
    let luma = luma_weight != default_weight(pwt.luma_log2_weight_denom);
    let unweighted = default_weight(pwt.chroma_log2_weight_denom);
    let chroma = chroma_weight[0] != unweighted || chroma_weight[1] != unweighted
        || chroma_offset[0] != 0 || chroma_offset[1] != 0;
    seq![flag(luma)] + when(
        luma,
        seq![Element::Se(luma_weight as i32), Element::Se(luma_offset as i32)],
    ) + when(
        has_chroma,
        seq![flag(chroma)] + when(
            chroma,
            seq![
                Element::Se(chroma_weight[0] as i32),
                Element::Se(chroma_offset[0] as i32),
                Element::Se(chroma_weight[1] as i32),
                Element::Se(chroma_offset[1] as i32),
            ],
        ),
    )
}

/// The weights of the first `n` references of list 0.
pub open spec fn weights_l0_syntax(pwt: PredWeightTable, has_chroma: bool, n: nat) -> Seq<Element>
    decreases n,
{
    if n == 0 {
        seq![]
    } else {
        let i = n - 1;
        weights_l0_syntax(pwt, has_chroma, i as nat) + weight_syntax(
            pwt,
            has_chroma,
            pwt.luma_weight_l0[i],
            pwt.luma_offset_l0[i],
            pwt.chroma_weight_l0[i],
            pwt.chroma_offset_l0[i],
        )
    }
}

/// The weights of the first `n` references of list 1.
pub open spec fn weights_l1_syntax(pwt: PredWeightTable, has_chroma: bool, n: nat) -> Seq<Element>
    decreases n,
{
    if n == 0 {
        seq![]
    } else {
        let i = n - 1;
        weights_l1_syntax(pwt, has_chroma, i as nat) + weight_syntax(
            pwt,
            has_chroma,
            pwt.luma_weight_l1[i],
            pwt.luma_offset_l1[i],
            pwt.chroma_weight_l1[i],
            pwt.chroma_offset_l1[i],
        )
    }
}

/// `pred_weight_table()`, 7.3.3.2.
pub open spec fn pred_weight_table_syntax(hdr: SliceHeader, sps: Sps) -> Seq<Element> {
    let pwt = hdr.pred_weight_table;
    let has_chroma = sps.spec_chroma_array_type() != 0;
    seq![Element::Ue(pwt.luma_log2_weight_denom as u32)] + when(
        has_chroma,
        seq![Element::Ue(pwt.chroma_log2_weight_denom as u32)],
    ) + weights_l0_syntax(pwt, has_chroma, (hdr.num_ref_idx_l0_active_minus1 + 1) as nat) + when(
        hdr.slice_type == SliceType::B,
        weights_l1_syntax(pwt, has_chroma, (hdr.num_ref_idx_l1_active_minus1 + 1) as nat),
    )
}

/// One memory management control operation.
pub open spec fn marking_syntax(marking: RefPicMarkingInner) -> Seq<Element> {
    let op = marking.memory_management_control_operation;
    seq![Element::Ue(op as u32)] + when(
        op == 1 || op == 3,
        seq![Element::Ue(marking.difference_of_pic_nums_minus1)],
    ) + when(op == 2, seq![Element::Ue(marking.long_term_pic_num)]) + when(
        op == 3 || op == 6,
        seq![Element::Ue(marking.long_term_frame_idx)],
    ) + when(op == 4, seq![Element::Ue(marking.max_long_term_frame_idx.plus1() as u32)])
}

/// The memory management control operations.
pub open spec fn markings_syntax(markings: Seq<RefPicMarkingInner>) -> Seq<Element>
    decreases markings.len(),
{
    if markings.len() == 0 {
        seq![]
    } else {
        markings_syntax(markings.drop_last()) + marking_syntax(markings.last())
    }
}

/// `dec_ref_pic_marking()`, 7.3.3.3.
pub open spec fn dec_ref_pic_marking_syntax(hdr: SliceHeader, is_idr: bool) -> Seq<Element> {
    let rpm = hdr.dec_ref_pic_marking;
    if is_idr {
        seq![flag(rpm.no_output_of_prior_pics_flag), flag(rpm.long_term_reference_flag)]
    } else {
        seq![flag(rpm.adaptive_ref_pic_marking_mode_flag)] + when(
            rpm.adaptive_ref_pic_marking_mode_flag,
            markings_syntax(rpm.inner@) + seq![Element::Ue(0)],
        )
    }
}

/// Whether a frame's bottom field has a picture order count of its own in the slice header.
pub open spec fn has_bottom_order(hdr: SliceHeader, pps: Pps) -> bool {
    pps.bottom_field_pic_order_in_frame_present_flag && !hdr.field_pic_flag
}

/// Whether the slice header has weights.
pub open spec fn has_weights(hdr: SliceHeader, pps: Pps) -> bool {
    (pps.weighted_pred_flag && (hdr.slice_type == SliceType::P || hdr.slice_type == SliceType::Sp))
        || (pps.weighted_bipred_idc == 1 && hdr.slice_type == SliceType::B)
}

/// Which picture the slice is of, in `slice_header()`.
pub open spec fn slice_picture_syntax(hdr: SliceHeader, sps: Sps) -> Seq<Element> {
    seq![
        Element::Ue(hdr.first_mb_in_slice),
        Element::Ue(hdr.slice_type.number() as u32),
        Element::Ue(hdr.pic_parameter_set_id as u32),
    ] + when(
        sps.separate_colour_plane_flag,
        seq![Element::U(2, hdr.colour_plane_id as u32)],
    ) + seq![
        Element::U((sps.log2_max_frame_num_minus4 + 4) as usize, hdr.frame_num as u32),
    ]
}

/// Which field the slice is of, and which IDR picture, in `slice_header()`.
pub open spec fn slice_field_syntax(hdr: SliceHeader, sps: Sps, is_idr: bool) -> Seq<Element> {
    when(
        !sps.frame_mbs_only_flag,
        seq![flag(hdr.field_pic_flag)] + when(
            hdr.field_pic_flag,
            seq![flag(hdr.bottom_field_flag)],
        ),
    ) + when(is_idr, seq![Element::Ue(hdr.idr_pic_id as u32)])
}

/// The picture order count in `slice_header()`.
pub open spec fn slice_order_syntax(hdr: SliceHeader, sps: Sps, pps: Pps) -> Seq<Element> {
    when(
        sps.pic_order_cnt_type == 0,
        seq![
            Element::U(
                (sps.log2_max_pic_order_cnt_lsb_minus4 + 4) as usize,
                hdr.pic_order_cnt_lsb as u32,
            ),
        ] + when(has_bottom_order(hdr, pps), seq![Element::Se(hdr.delta_pic_order_cnt_bottom)]),
    ) + when(
        sps.pic_order_cnt_type == 1 && !sps.delta_pic_order_always_zero_flag,
        seq![Element::Se(hdr.delta_pic_order_cnt[0])] + when(
            has_bottom_order(hdr, pps),
            seq![Element::Se(hdr.delta_pic_order_cnt[1])],
        ),
    )
}

/// The number of references in `slice_header()`.
pub open spec fn slice_reference_syntax(hdr: SliceHeader, pps: Pps) -> Seq<Element> {
    when(
        pps.redundant_pic_cnt_present_flag,
        seq![Element::Ue(hdr.redundant_pic_cnt as u32)],
    ) + when(
        hdr.slice_type == SliceType::B,
        seq![flag(hdr.direct_spatial_mv_pred_flag)],
    ) + when(
        hdr.slice_type == SliceType::P || hdr.slice_type == SliceType::Sp || hdr.slice_type
            == SliceType::B,
        seq![flag(hdr.num_ref_idx_active_override_flag)] + when(
            hdr.num_ref_idx_active_override_flag,
            seq![Element::Ue(hdr.num_ref_idx_l0_active_minus1 as u32)] + when(
                hdr.slice_type == SliceType::B,
                seq![Element::Ue(hdr.num_ref_idx_l1_active_minus1 as u32)],
            ),
        ),
    )
}

/// The quantizer in `slice_header()`.
pub open spec fn slice_quantizer_syntax(hdr: SliceHeader, pps: Pps) -> Seq<Element> {
    when(
        pps.entropy_coding_mode_flag && hdr.slice_type != SliceType::I && hdr.slice_type
            != SliceType::Si,
        seq![Element::Ue(hdr.cabac_init_idc as u32)],
    ) + seq![Element::Se(hdr.slice_qp_delta as i32)] + when(
        hdr.slice_type == SliceType::Sp || hdr.slice_type == SliceType::Si,
        when(hdr.slice_type == SliceType::Sp, seq![flag(hdr.sp_for_switch_flag)]) + seq![
            Element::Se(hdr.slice_qs_delta as i32),
        ],
    )
}

/// The deblocking in `slice_header()`, and the slice groups that are not supported.
pub open spec fn slice_deblocking_syntax(hdr: SliceHeader, pps: Pps) -> Seq<Element> {
    when(
        pps.deblocking_filter_control_present_flag,
        seq![Element::Ue(hdr.disable_deblocking_filter_idc as u32)] + when(
            hdr.disable_deblocking_filter_idc != 1,
            seq![
                Element::Se(hdr.slice_alpha_c0_offset_div2 as i32),
                Element::Se(hdr.slice_beta_offset_div2 as i32),
            ],
        ),
    ) + when(pps.num_slice_groups_minus1 > 0, seq![Element::Unsupported])
}

/// The reference count in the NAL unit header of a slice.
pub open spec fn slice_ref_idc(is_idr: bool, is_ref: IsReference) -> u8 {
    if is_idr {
        3
    } else {
        match is_ref {
            IsReference::LongTerm => 2,
            IsReference::ShortTerm => 1,
            IsReference::No => 0,
        }
    }
}

/// The NAL unit type of a slice.
pub open spec fn slice_nalu_type(is_idr: bool) -> NaluType {
    if is_idr {
        NaluType::SliceIdr
    } else {
        NaluType::Slice
    }
}

/// `slice_header()` up to the weights.
pub open spec fn slice_head_syntax(
    hdr: SliceHeader,
    sps: Sps,
    pps: Pps,
    is_idr: bool,
) -> Seq<Element> {
    slice_picture_syntax(hdr, sps) + slice_field_syntax(hdr, sps, is_idr) + slice_order_syntax(
        hdr,
        sps,
        pps,
    ) + slice_reference_syntax(hdr, pps) + ref_pic_list_modification_syntax(hdr)
}

/// `slice_header()`, 7.3.3. Slice groups are not supported.
pub open spec fn slice_header_syntax(
    hdr: SliceHeader,
    sps: Sps,
    pps: Pps,
    is_idr: bool,
    is_ref: IsReference,
) -> Seq<Element> {
    slice_head_syntax(hdr, sps, pps, is_idr) + when(
        has_weights(hdr, pps),
        pred_weight_table_syntax(hdr, sps),
    ) + when(is_ref != IsReference::No, dec_ref_pic_marking_syntax(hdr, is_idr))
        + slice_quantizer_syntax(hdr, pps) + slice_deblocking_syntax(hdr, pps)
}

/// The values of a slice header that have a code, as far as they are sent
/// and the output has not ended in front of them: the signed ones are not the
/// least `i32`, the weights have a denominator that an `i16` holds and are of
/// at most 32 references, and the number of long term frame indices can be
/// counted.
pub open spec fn slice_in_range(
    hdr: SliceHeader,
    sps: Sps,
    pps: Pps,
    is_idr: bool,
    is_ref: IsReference,
) -> bool {
    &&& failure(slice_picture_syntax(hdr, sps)) is None ==> order_in_range(hdr, sps, pps)
    &&& failure(slice_head_syntax(hdr, sps, pps, is_idr)) is None ==> {
        &&& has_weights(hdr, pps) ==> weights_in_range(hdr, sps)
        &&& is_ref != IsReference::No && !is_idr
            && hdr.dec_ref_pic_marking.adaptive_ref_pic_marking_mode_flag ==> markings_in_range(
            hdr.dec_ref_pic_marking.inner@,
        )
    }
}

/// The signed parts of the picture order count are not the least `i32`. The
/// bottom field's is only reached behind low bits that can be written.
pub open spec fn order_in_range(hdr: SliceHeader, sps: Sps, pps: Pps) -> bool {
    &&& sps.pic_order_cnt_type == 0 && has_bottom_order(hdr, pps)
        && sps.log2_max_pic_order_cnt_lsb_minus4 + 4 <= 32 ==> hdr.delta_pic_order_cnt_bottom
        != i32::MIN
    &&& sps.pic_order_cnt_type == 1 && !sps.delta_pic_order_always_zero_flag ==> {
        &&& hdr.delta_pic_order_cnt[0] != i32::MIN
        &&& has_bottom_order(hdr, pps) ==> hdr.delta_pic_order_cnt[1] != i32::MIN
    }
}

/// The weights have a denominator that an `i16` holds and are of at most 32 references.
pub open spec fn weights_in_range(hdr: SliceHeader, sps: Sps) -> bool {
    &&& hdr.pred_weight_table.luma_log2_weight_denom < 16
    &&& sps.spec_chroma_array_type() != 0 ==> hdr.pred_weight_table.chroma_log2_weight_denom < 16
    &&& hdr.num_ref_idx_l0_active_minus1 < 32
    &&& hdr.slice_type == SliceType::B ==> hdr.num_ref_idx_l1_active_minus1 < 32
}

/// The number of long term frame indices can be counted, unless an operation
/// in front of it cannot be written.
pub open spec fn markings_in_range(markings: Seq<RefPicMarkingInner>) -> bool {
    forall|i: int|
        0 <= i < markings.len() && #[trigger] markings[i].memory_management_control_operation == 4
            ==> markings[i].max_long_term_frame_idx.plus1() <= u32::MAX || failure(
            markings_syntax(markings.take(i)),
        ) is Some
}

/// What is put behind elements that cannot all be written is left out.
pub proof fn lemma_left_out(elements: Seq<Element>, more: Seq<Element>)
    requires
        failure(elements) is Some,
    ensures
        failure(elements + more) == failure(elements),
        encoded(elements + more) == encoded(elements),
    decreases more.len(),
{
    if more.len() == 0 {
        assert(elements + more =~= elements);
    } else {
        lemma_left_out(elements, more.drop_last());
        assert((elements + more).drop_last() =~= elements + more.drop_last());
    }
}

/// Where elements cannot all be written, neither can they behind others.
pub proof fn lemma_failure_behind(start: Seq<Element>, elements: Seq<Element>)
    requires
        failure(elements) is Some,
    ensures
        failure(start + elements) is Some,
    decreases elements.len(),
{
    assert((start + elements).drop_last() =~= start + elements.drop_last());
    if failure(elements.drop_last()) is Some {
        lemma_failure_behind(start, elements.drop_last());
    }
}

} // verus!
