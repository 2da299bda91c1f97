//! Which parameter sets and slice headers can be synthesized, and which are refused.

use vstd::prelude::*;

use crate::codec::h264::nalu_writer::NaluWriterError;
use crate::codec::h264::parser::HrdParams;
use crate::codec::h264::parser::MaxLongTermFrameIdx;
use crate::codec::h264::parser::Pps;
use crate::codec::h264::parser::PredWeightTable;
use crate::codec::h264::parser::RefPicListModification;
use crate::codec::h264::parser::RefPicMarkingInner;
use crate::codec::h264::parser::SliceHeader;
use crate::codec::h264::parser::SliceType;
use crate::codec::h264::parser::Sps;
use crate::codec::h264::parser::VuiParams;
use crate::codec::h264::syntax;
use crate::codec::h264::syntax::Element;
use crate::codec::h264::synthesizer::Synthesizer;
use crate::codec::h264::synthesizer::SynthesizerError;
use crate::encode::IsReference;
use crate::encode::stream;
use crate::encode::stream::lemma_writable_append;
use crate::encode::stream::writable;

verus! {

/// A scaling list, and the flag in front of it, can be written.
proof fn lemma_list_is_writable(list: Seq<u8>, default: Seq<u8>)
    ensures
        writable(syntax::optional_list_syntax(list, default)),
{
    let elements = syntax::scaling_list_syntax(list, default);
    assert(writable(elements));
    assert(writable(seq![syntax::flag(!syntax::absent(list))]));
}

/// The scaling lists can be written.
proof fn lemma_lists_are_writable(lists_4x4: [[u8; 16]; 6], lists_8x8: [[u8; 64]; 6], n: nat)
    ensures
        writable(syntax::scaling_lists_syntax(lists_4x4, lists_8x8, n)),
    decreases n,
{
    if n > 0 {
        let i = n - 1;
        let list = if i < 6 {
            lists_4x4[i]@
        } else {
            lists_8x8[i - 6]@
        };
        lemma_lists_are_writable(lists_4x4, lists_8x8, i as nat);
        lemma_list_is_writable(list, syntax::default_list(i));
        lemma_writable_append(
            syntax::scaling_lists_syntax(lists_4x4, lists_8x8, i as nat),
            syntax::optional_list_syntax(list, syntax::default_list(i)),
        );
    }
}

/// The numbers of the coded picture buffers have a code.
pub open spec fn hrd_has_codes(hrd: HrdParams) -> bool {
    &&& hrd.cpb_cnt_minus1 < 32
    &&& forall|i: int|
        0 <= i <= hrd.cpb_cnt_minus1 ==> #[trigger] hrd.bit_rate_value_minus1[i] < u32::MAX
    &&& forall|i: int|
        0 <= i <= hrd.cpb_cnt_minus1 ==> #[trigger] hrd.cpb_size_value_minus1[i] < u32::MAX
}

/// The coded picture buffers can be written.
proof fn lemma_buffers_are_writable(hrd: HrdParams, n: nat)
    requires
        hrd_has_codes(hrd),
        n <= hrd.cpb_cnt_minus1 + 1,
    ensures
        writable(syntax::cpb_syntax(hrd, n)),
    decreases n,
{
    if n > 0 {
        let i = n - 1;
        lemma_buffers_are_writable(hrd, i as nat);
        assert(hrd.bit_rate_value_minus1[i] < u32::MAX);
        assert(hrd.cpb_size_value_minus1[i] < u32::MAX);
    }
}

/// The numbers of the usability information have a code, as far as they are sent.
pub open spec fn vui_has_codes(vui: VuiParams) -> bool {
    &&& vui.nal_hrd_parameters_present_flag ==> hrd_has_codes(vui.nal_hrd_parameters)
    &&& vui.vcl_hrd_parameters_present_flag ==> hrd_has_codes(vui.vcl_hrd_parameters)
    &&& vui.bitstream_restriction_flag ==> {
        &&& vui.max_bytes_per_pic_denom < u32::MAX
        &&& vui.max_bits_per_mb_denom < u32::MAX
        &&& vui.log2_max_mv_length_horizontal < u32::MAX
        &&& vui.log2_max_mv_length_vertical < u32::MAX
        &&& vui.max_num_reorder_frames < u32::MAX
        &&& vui.max_dec_frame_buffering < u32::MAX
    }
}

/// The reference decoders can be written.
proof fn lemma_hrds_are_writable(vui: VuiParams)
    requires
        vui_has_codes(vui),
    ensures
        writable(syntax::vui_hrd_syntax(vui)),
{
    if vui.nal_hrd_parameters_present_flag {
        let hrd = vui.nal_hrd_parameters;
        lemma_buffers_are_writable(hrd, (hrd.cpb_cnt_minus1 + 1) as nat);
        assert(writable(syntax::hrd_syntax(hrd)));
    }
    if vui.vcl_hrd_parameters_present_flag {
        let hrd = vui.vcl_hrd_parameters;
        lemma_buffers_are_writable(hrd, (hrd.cpb_cnt_minus1 + 1) as nat);
        assert(writable(syntax::hrd_syntax(hrd)));
    }
    let a = seq![syntax::flag(vui.nal_hrd_parameters_present_flag)];
    let b = syntax::when(
        vui.nal_hrd_parameters_present_flag,
        syntax::hrd_syntax(vui.nal_hrd_parameters),
    );
    let c = seq![syntax::flag(vui.vcl_hrd_parameters_present_flag)];
    let d = syntax::when(
        vui.vcl_hrd_parameters_present_flag,
        syntax::hrd_syntax(vui.vcl_hrd_parameters),
    );
    let e = syntax::when(
        vui.nal_hrd_parameters_present_flag || vui.vcl_hrd_parameters_present_flag,
        seq![syntax::flag(vui.low_delay_hrd_flag)],
    );
    lemma_writable_append(a, b);
    lemma_writable_append(a + b, c);
    lemma_writable_append(a + b + c, d);
    lemma_writable_append(a + b + c + d, e);
}

/// The usability information can be written.
proof fn lemma_vui_is_writable(vui: VuiParams)
    requires
        vui_has_codes(vui),
    ensures
        writable(syntax::vui_syntax(vui)),
{
    stream::lemma_vui_head_is_writable(vui);
    lemma_hrds_are_writable(vui);
    let head = syntax::vui_aspect_syntax(vui) + syntax::vui_overscan_syntax(vui)
        + syntax::vui_signal_syntax(vui) + syntax::vui_chroma_loc_syntax(vui);
    let (e, f) = (syntax::vui_timing_syntax(vui), syntax::vui_hrd_syntax(vui));
    let g = syntax::vui_restriction_syntax(vui);
    assert(writable(e));
    assert(writable(g));
    lemma_writable_append(head, e);
    lemma_writable_append(head + e, f);
    lemma_writable_append(head + e + f, g);
}

/// The numbers of a sequence parameter set have a code, as far as they are sent.
pub open spec fn sps_has_codes(sps: Sps) -> bool {
    &&& sps.frame_cropping_flag ==> {
        &&& sps.frame_crop_left_offset < u32::MAX
        &&& sps.frame_crop_right_offset < u32::MAX
        &&& sps.frame_crop_top_offset < u32::MAX
        &&& sps.frame_crop_bottom_offset < u32::MAX
    }
    &&& sps.vui_parameters_present_flag ==> vui_has_codes(sps.vui_parameters)
}

/// The chroma format and the scaling lists can be written.
proof fn lemma_chroma_is_writable(sps: Sps)
    ensures
        writable(syntax::sps_chroma_syntax(sps)),
{
    let n: nat = if sps.chroma_format_idc != 3 {
        8
    } else {
        12
    };
    lemma_lists_are_writable(sps.scaling_lists_4x4, sps.scaling_lists_8x8, n);
    let lists = syntax::scaling_lists_syntax(sps.scaling_lists_4x4, sps.scaling_lists_8x8, n);
    let head = seq![Element::Ue(sps.chroma_format_idc as u32)] + syntax::when(
        sps.chroma_format_idc == 3,
        seq![syntax::flag(sps.separate_colour_plane_flag)],
    ) + seq![
        Element::Ue(sps.bit_depth_luma_minus8 as u32),
        Element::Ue(sps.bit_depth_chroma_minus8 as u32),
        syntax::flag(sps.qpprime_y_zero_transform_bypass_flag),
        syntax::flag(sps.seq_scaling_matrix_present_flag),
    ];
    assert(writable(head));
    lemma_writable_append(head, syntax::when(sps.seq_scaling_matrix_present_flag, lists));
}

/// A sequence parameter set whose numbers have a code can be written.
proof fn lemma_sps_is_written(sps: Sps)
    requires
        sps_has_codes(sps),
    ensures
        syntax::failure(syntax::sps_syntax(sps)) is None,
{
    let a = syntax::sps_profile_syntax(sps);
    let b = syntax::sps_level_syntax(sps);
    let c = syntax::when(
        syntax::profile_has_chroma(sps.profile_idc),
        syntax::sps_chroma_syntax(sps),
    );
    let d = syntax::sps_order_syntax(sps);
    let e = syntax::sps_frame_syntax(sps);
    let f = syntax::sps_crop_syntax(sps);
    let g = seq![syntax::flag(sps.vui_parameters_present_flag)];
    let h = syntax::when(sps.vui_parameters_present_flag, syntax::vui_syntax(sps.vui_parameters));
    assert(writable(a));
    assert(writable(b));
    lemma_chroma_is_writable(sps);
    assert(writable(d));
    assert(writable(e));
    assert(writable(f));
    assert(writable(g));
    if sps.vui_parameters_present_flag {
        lemma_vui_is_writable(sps.vui_parameters);
    }
    lemma_writable_append(a, b);
    lemma_writable_append(a + b, c);
    lemma_writable_append(a + b + c, d);
    lemma_writable_append(a + b + c + d, e);
    lemma_writable_append(a + b + c + d + e, f);
    lemma_writable_append(a + b + c + d + e + f, g);
    lemma_writable_append(a + b + c + d + e + f + g, h);
    stream::lemma_writable(syntax::sps_syntax(sps));
}

/// A sequence parameter set is synthesized wherever its numbers have a code,
/// which the largest of 32 bits has not.
pub proof fn a_sequence_parameter_set_is_synthesized(
    ref_idc: u8,
    sps: &Sps,
    writer: &mut Vec<u8>,
    ep_enabled: bool,
    result: Result<(), SynthesizerError>,
)
    requires
        sps_has_codes(*sps),
        call_ensures(
            Synthesizer::<'_, Sps>::synthesize,
            (ref_idc, sps, writer, ep_enabled),
            result,
        ),
    ensures
        result is Ok,
{
    lemma_sps_is_written(*sps);
}

/// A picture parameter set is synthesized wherever there are no slice groups,
/// which are not supported.
pub proof fn a_picture_parameter_set_is_synthesized(
    ref_idc: u8,
    pps: &Pps,
    writer: &mut Vec<u8>,
    ep_enabled: bool,
    result: Result<(), SynthesizerError>,
)
    requires
        call_ensures(
            Synthesizer::<'_, Pps>::synthesize,
            (ref_idc, pps, writer, ep_enabled),
            result,
        ),
    ensures
        pps.num_slice_groups_minus1 == 0 ==> result is Ok,
        0 < pps.num_slice_groups_minus1 < u32::MAX ==> result == Err::<(), SynthesizerError>(
            SynthesizerError::Unsupported,
        ),
        pps.num_slice_groups_minus1 == u32::MAX ==> result == Err::<(), SynthesizerError>(
            SynthesizerError::NaluWriter(NaluWriterError::Overflow),
        ),
{
    let head = syntax::pps_head_syntax(*pps);
    let defaults = syntax::pps_defaults_syntax(*pps);
    let extension = syntax::when(
        syntax::pps_is_extended(*pps),
        syntax::pps_extension_syntax(*pps),
    );
    let n: nat = if !pps.transform_8x8_mode_flag {
        6
    } else if pps.sps.chroma_format_idc != 3 {
        8
    } else {
        12
    };
    if pps.num_slice_groups_minus1 == 0 {
        assert(writable(head));
        assert(writable(defaults));
        let flags = seq![
            syntax::flag(pps.transform_8x8_mode_flag),
            syntax::flag(pps.pic_scaling_matrix_present_flag),
        ];
        let lists = syntax::when(
            pps.pic_scaling_matrix_present_flag,
            syntax::scaling_lists_syntax(pps.scaling_lists_4x4, pps.scaling_lists_8x8, n),
        );
        let offset = seq![Element::Se(pps.second_chroma_qp_index_offset as i32)];
        lemma_lists_are_writable(pps.scaling_lists_4x4, pps.scaling_lists_8x8, n);
        assert(writable(flags));
        assert(writable(offset));
        lemma_writable_append(flags, lists);
        lemma_writable_append(flags + lists, offset);
        lemma_writable_append(head, defaults);
        lemma_writable_append(head + defaults, extension);
        stream::lemma_writable(syntax::pps_syntax(*pps));
    } else {
        let all = syntax::pps_syntax(*pps);
        let last = if pps.num_slice_groups_minus1 == u32::MAX {
            4int
        } else {
            5
        };
        let front = head.take(last);
        assert(writable(front));
        stream::lemma_writable(front);
        let one = head.take(last + 1);
        assert(one.drop_last() =~= front);
        assert(one.last() == head[last]);
        let more = all.skip(last + 1);
        assert(all =~= one + more);
        syntax::lemma_left_out(one, more);
    }
}

/// The numbers of the modifications of a list have a code.
pub open spec fn modifications_have_codes(steps: Seq<RefPicListModification>) -> bool {
    forall|i: int|
        0 <= i < steps.len() ==> (#[trigger] steps[i]).abs_diff_pic_num_minus1 < u32::MAX
            && steps[i].long_term_pic_num < u32::MAX
}

/// The modifications of a list can be written.
proof fn lemma_modifications_are_writable(steps: Seq<RefPicListModification>)
    requires
        modifications_have_codes(steps),
    ensures
        writable(syntax::modifications_syntax(steps)),
    decreases steps.len(),
{
    if steps.len() > 0 {
        let front = steps.drop_last();
        assert forall|i: int| 0 <= i < front.len() implies (
        #[trigger] front[i]).abs_diff_pic_num_minus1 < u32::MAX && front[i].long_term_pic_num
            < u32::MAX by {
            assert(front[i] == steps[i]);
        }
        lemma_modifications_are_writable(front);
        assert(steps.last() == steps[steps.len() - 1]);
        assert(writable(syntax::modification_syntax(steps.last())));
        lemma_writable_append(
            syntax::modifications_syntax(front),
            syntax::modification_syntax(steps.last()),
        );
    }
}

/// The modification of one list can be written.
proof fn lemma_modification_is_writable(modified: bool, steps: Seq<RefPicListModification>)
    requires
        modifications_have_codes(steps),
    ensures
        writable(syntax::list_modification_syntax(modified, steps)),
{
    lemma_modifications_are_writable(steps);
    let end = seq![Element::Ue(3)];
    assert(writable(end));
    lemma_writable_append(syntax::modifications_syntax(steps), end);
    let flag = seq![syntax::flag(modified)];
    assert(writable(flag));
    lemma_writable_append(
        flag,
        syntax::when(modified, syntax::modifications_syntax(steps) + end),
    );
}

/// The numbers of the markings have a code.
pub open spec fn markings_have_codes(markings: Seq<RefPicMarkingInner>) -> bool {
    forall|i: int|
        0 <= i < markings.len() ==> {
            &&& (#[trigger] markings[i]).difference_of_pic_nums_minus1 < u32::MAX
            &&& markings[i].long_term_pic_num < u32::MAX
            &&& markings[i].long_term_frame_idx < u32::MAX
            &&& markings[i].max_long_term_frame_idx matches MaxLongTermFrameIdx::Idx(last)
                ==> last < u32::MAX - 1
        }
}

/// The markings can be written.
proof fn lemma_markings_are_writable(markings: Seq<RefPicMarkingInner>)
    requires
        markings_have_codes(markings),
    ensures
        writable(syntax::markings_syntax(markings)),
    decreases markings.len(),
{
    if markings.len() > 0 {
        let front = markings.drop_last();
        assert forall|i: int| 0 <= i < front.len() implies {
            &&& (#[trigger] front[i]).difference_of_pic_nums_minus1 < u32::MAX
            &&& front[i].long_term_pic_num < u32::MAX
            &&& front[i].long_term_frame_idx < u32::MAX
            &&& front[i].max_long_term_frame_idx matches MaxLongTermFrameIdx::Idx(last) ==> last
                < u32::MAX - 1
        } by {
            assert(front[i] == markings[i]);
        }
        lemma_markings_are_writable(front);
        assert(markings.last() == markings[markings.len() - 1]);
        assert(writable(syntax::marking_syntax(markings.last())));
        lemma_writable_append(
            syntax::markings_syntax(front),
            syntax::marking_syntax(markings.last()),
        );
    }
}

/// The weights can be written.
proof fn lemma_weights_are_writable(pwt: PredWeightTable, has_chroma: bool, n: nat)
    ensures
        writable(syntax::weights_l0_syntax(pwt, has_chroma, n)),
        writable(syntax::weights_l1_syntax(pwt, has_chroma, n)),
    decreases n,
{
    if n > 0 {
        let i = n - 1;
        lemma_weights_are_writable(pwt, has_chroma, i as nat);
        let l0 = syntax::weight_syntax(
            pwt,
            has_chroma,
            pwt.luma_weight_l0[i],
            pwt.luma_offset_l0[i],
            pwt.chroma_weight_l0[i],
            pwt.chroma_offset_l0[i],
        );
        let l1 = syntax::weight_syntax(
            pwt,
            has_chroma,
            pwt.luma_weight_l1[i],
            pwt.luma_offset_l1[i],
            pwt.chroma_weight_l1[i],
            pwt.chroma_offset_l1[i],
        );
        assert(writable(l0));
        assert(writable(l1));
        lemma_writable_append(syntax::weights_l0_syntax(pwt, has_chroma, i as nat), l0);
        lemma_writable_append(syntax::weights_l1_syntax(pwt, has_chroma, i as nat), l1);
    }
}

/// The table of weights can be written.
proof fn lemma_table_is_writable(hdr: SliceHeader, sps: Sps)
    ensures
        writable(syntax::pred_weight_table_syntax(hdr, sps)),
{
    let pwt = hdr.pred_weight_table;
    let has_chroma = sps.spec_chroma_array_type() != 0;
    let (n0, n1) = (
        (hdr.num_ref_idx_l0_active_minus1 + 1) as nat,
        (hdr.num_ref_idx_l1_active_minus1 + 1) as nat,
    );
    lemma_weights_are_writable(pwt, has_chroma, n0);
    lemma_weights_are_writable(pwt, has_chroma, n1);
    let head = seq![Element::Ue(pwt.luma_log2_weight_denom as u32)] + syntax::when(
        has_chroma,
        seq![Element::Ue(pwt.chroma_log2_weight_denom as u32)],
    );
    assert(writable(head));
    let l0 = syntax::weights_l0_syntax(pwt, has_chroma, n0);
    lemma_writable_append(head, l0);
    lemma_writable_append(
        head + l0,
        syntax::when(
            hdr.slice_type == SliceType::B,
            syntax::weights_l1_syntax(pwt, has_chroma, n1),
        ),
    );
}

/// The numbers of a slice header have a code: the counts at most 32 bits, and
/// the others are not the largest.
pub open spec fn slice_has_codes(hdr: SliceHeader, sps: Sps) -> bool {
    &&& sps.log2_max_frame_num_minus4 <= 28
    &&& sps.pic_order_cnt_type == 0 ==> sps.log2_max_pic_order_cnt_lsb_minus4 <= 28
    &&& hdr.first_mb_in_slice < u32::MAX
    &&& modifications_have_codes(hdr.ref_pic_list_modification_l0@)
    &&& modifications_have_codes(hdr.ref_pic_list_modification_l1@)
    &&& markings_have_codes(hdr.dec_ref_pic_marking.inner@)
}

/// What a slice header says of its picture and its references can be written.
proof fn lemma_slice_start_is_writable(hdr: SliceHeader, sps: Sps, pps: Pps, idr: bool)
    requires
        slice_has_codes(hdr, sps),
    ensures
        writable(syntax::slice_picture_syntax(hdr, sps)),
        writable(syntax::slice_field_syntax(hdr, sps, idr)),
        writable(syntax::slice_order_syntax(hdr, sps, pps)),
        writable(syntax::slice_reference_syntax(hdr, pps)),
{
}

/// What a slice header says of its quality can be written.
proof fn lemma_slice_end_is_writable(hdr: SliceHeader, pps: Pps)
    requires
        pps.num_slice_groups_minus1 == 0,
    ensures
        writable(syntax::slice_quantizer_syntax(hdr, pps)),
        writable(syntax::slice_deblocking_syntax(hdr, pps)),
{
}

/// The modifications of both lists can be written.
proof fn lemma_both_are_writable(hdr: SliceHeader)
    requires
        modifications_have_codes(hdr.ref_pic_list_modification_l0@),
        modifications_have_codes(hdr.ref_pic_list_modification_l1@),
    ensures
        writable(syntax::ref_pic_list_modification_syntax(hdr)),
{
    let (flag0, steps0) = (
        hdr.ref_pic_list_modification_flag_l0,
        hdr.ref_pic_list_modification_l0@,
    );
    let (flag1, steps1) = (
        hdr.ref_pic_list_modification_flag_l1,
        hdr.ref_pic_list_modification_l1@,
    );
    lemma_modification_is_writable(flag0, steps0);
    lemma_modification_is_writable(flag1, steps1);
    lemma_writable_append(
        syntax::when(
            hdr.slice_type != SliceType::I && hdr.slice_type != SliceType::Si,
            syntax::list_modification_syntax(flag0, steps0),
        ),
        syntax::when(
            hdr.slice_type == SliceType::B,
            syntax::list_modification_syntax(flag1, steps1),
        ),
    );
}

/// The marking of references can be written.
proof fn lemma_marking_is_writable(hdr: SliceHeader, idr: bool)
    requires
        markings_have_codes(hdr.dec_ref_pic_marking.inner@),
    ensures
        writable(syntax::dec_ref_pic_marking_syntax(hdr, idr)),
{
    let rpm = hdr.dec_ref_pic_marking;
    let markings = syntax::markings_syntax(rpm.inner@);
    lemma_markings_are_writable(rpm.inner@);
    let end = seq![Element::Ue(0)];
    assert(writable(end));
    lemma_writable_append(markings, end);
    let flag = seq![syntax::flag(rpm.adaptive_ref_pic_marking_mode_flag)];
    assert(writable(flag));
    lemma_writable_append(
        flag,
        syntax::when(rpm.adaptive_ref_pic_marking_mode_flag, markings + end),
    );
}

/// Parts that can be written each can be written all.
proof fn lemma_parts_are_written(
    start: (Seq<Element>, Seq<Element>, Seq<Element>, Seq<Element>),
    lists: Seq<Element>,
    weights: Seq<Element>,
    marking: Seq<Element>,
    end: (Seq<Element>, Seq<Element>),
)
    requires
        writable(start.0) && writable(start.1) && writable(start.2) && writable(start.3),
        writable(lists) && writable(weights) && writable(marking),
        writable(end.0) && writable(end.1),
    ensures
        syntax::failure(
            start.0 + start.1 + start.2 + start.3 + lists + weights + marking + end.0 + end.1,
        ) is None,
{
    let (a, b, c, d) = start;
    lemma_writable_append(a, b);
    lemma_writable_append(a + b, c);
    lemma_writable_append(a + b + c, d);
    let head = a + b + c + d;
    lemma_writable_append(head, lists);
    lemma_writable_append(head + lists, weights);
    lemma_writable_append(head + lists + weights, marking);
    lemma_writable_append(head + lists + weights + marking, end.0);
    lemma_writable_append(head + lists + weights + marking + end.0, end.1);
    stream::lemma_writable(head + lists + weights + marking + end.0 + end.1);
}

/// A slice header without slice groups whose numbers have a code can be written.
proof fn lemma_slice_is_written(
    hdr: SliceHeader,
    sps: Sps,
    pps: Pps,
    idr: bool,
    is_ref: IsReference,
)
    requires
        slice_has_codes(hdr, sps),
        pps.num_slice_groups_minus1 == 0,
    ensures
        syntax::failure(syntax::slice_header_syntax(hdr, sps, pps, idr, is_ref)) is None,
{
    lemma_slice_start_is_writable(hdr, sps, pps, idr);
    lemma_slice_end_is_writable(hdr, pps);
    lemma_both_are_writable(hdr);
    lemma_table_is_writable(hdr, sps);
    lemma_marking_is_writable(hdr, idr);
    lemma_parts_are_written(
        (
            syntax::slice_picture_syntax(hdr, sps),
            syntax::slice_field_syntax(hdr, sps, idr),
            syntax::slice_order_syntax(hdr, sps, pps),
            syntax::slice_reference_syntax(hdr, pps),
        ),
        syntax::ref_pic_list_modification_syntax(hdr),
        syntax::when(
            syntax::has_weights(hdr, pps),
            syntax::pred_weight_table_syntax(hdr, sps),
        ),
        syntax::when(
            is_ref != IsReference::No,
            syntax::dec_ref_pic_marking_syntax(hdr, idr),
        ),
        (
            syntax::slice_quantizer_syntax(hdr, pps),
            syntax::slice_deblocking_syntax(hdr, pps),
        ),
    );
}

/// A slice header is synthesized wherever its numbers have a code and there
/// are no slice groups. Where there are, it is refused.
pub proof fn a_slice_header_is_synthesized(
    hdr: &SliceHeader,
    sps: &Sps,
    pps: &Pps,
    idr: bool,
    is_ref: IsReference,
    writer: &mut Vec<u8>,
    ep_enabled: bool,
    result: Result<u8, SynthesizerError>,
)
    requires
        call_ensures(
            Synthesizer::<'_, SliceHeader>::synthesize,
            (hdr, sps, pps, idr, is_ref, writer, ep_enabled),
            result,
        ),
    ensures
        pps.num_slice_groups_minus1 > 0 ==> result is Err,
        pps.num_slice_groups_minus1 == 0 && slice_has_codes(*hdr, *sps) ==> result is Ok,
{
    if pps.num_slice_groups_minus1 > 0 {
        let all = syntax::slice_header_syntax(*hdr, *sps, *pps, idr, is_ref);
        let last = syntax::slice_deblocking_syntax(*hdr, *pps);
        assert(all.last() == last.last());
        assert(last.last() == Element::Unsupported);
    } else if slice_has_codes(*hdr, *sps) {
        lemma_slice_is_written(*hdr, *sps, *pps, idr, is_ref);
    }
}

} // verus!
