//! The parameter sets of a stream on the wire: they can always be read back.

use vstd::prelude::*;

use crate::codec::h264::decoder;
use crate::codec::h264::decoder::DecodedFrame;
use crate::codec::h264::decoder::DecodedSps;
use crate::codec::h264::parser;
use crate::codec::h264::parser::NaluType;
use crate::codec::h264::parser::Pps;
use crate::codec::h264::parser::Sps;
use crate::codec::h264::readback;
use crate::codec::h264::syntax;
use crate::codec::h264::syntax::Element;
use crate::color::Color;
use crate::color::Matrix;
use crate::encode;
use crate::encode::stream;

verus! {

/// A unit of `elements` on the wire holds them: behind the start code and the
/// type, the payload emulates no start code, and read without its emulation
/// prevention bytes it gives back every value, then the stop bit.
pub open spec fn arrives(type_: NaluType, elements: Seq<Element>) -> bool {
    let unit = syntax::nal_unit(3, type_, syntax::payload(elements), true);
    let descriptors = elements.map_values(|e: Element| readback::descriptor(e));
    let (values, rest) = readback::read_all(
        descriptors,
        readback::unpack(readback::unescape(unit.skip(5))),
    );
    &&& unit.take(4) == seq![0u8, 0u8, 0u8, 1u8]
    &&& unit[4] == 32 * 3 + type_.number()
    &&& !readback::emulates_start_code(unit.skip(5))
    &&& values == elements.map_values(|e: Element| readback::value(e))
    &&& 1 <= rest.len() <= 8
    &&& rest[0]
    &&& forall|i: int| 1 <= i < rest.len() ==> !rest[i]
}

/// The parameter sets of every stream arrive: whatever its size, rate and
/// color, a decoder reads back what was written.
pub proof fn the_parameter_sets_arrive(
    pps: Pps,
    width: int,
    height: int,
    framerate: int,
    color: Color,
)
    requires
        stream::size_in_range(width, height),
        stream::is_stream_sps(*pps.sps, width, height, framerate, color),
        stream::is_stream_pps(pps),
    ensures
        arrives(NaluType::Sps, syntax::sps_syntax(*pps.sps)),
        arrives(NaluType::Pps, syntax::pps_syntax(pps)),
{
    stream::the_parameter_sets_can_be_written(pps, width, height, framerate, color);
    let sps = *pps.sps;
    readback::a_nal_unit_reads_back(3, NaluType::Sps, syntax::sps_syntax(sps));
    readback::a_nal_unit_reads_back(3, NaluType::Pps, syntax::pps_syntax(pps));
}

/// Lists of zeros can be read back, since they are not written.
proof fn lemma_no_lists(lists_4x4: [[u8; 16]; 6], lists_8x8: [[u8; 64]; 6])
    requires
        forall|i: int, j: int| 0 <= i < 6 && 0 <= j < 16 ==> #[trigger] lists_4x4[i][j] == 0,
        forall|i: int, j: int| 0 <= i < 6 && 0 <= j < 64 ==> #[trigger] lists_8x8[i][j] == 0,
    ensures
        decoder::lists_have_syntax(lists_4x4, lists_8x8, 12),
{
    assert forall|i: int| 0 <= i < 12 implies decoder::list_has_syntax(
        #[trigger] decoder::list_at(lists_4x4, lists_8x8, i),
    ) by {
        let list = decoder::list_at(lists_4x4, lists_8x8, i);
        assert forall|k: int| 0 <= k < list.len() implies list[k] == 0 by {
            if i < 6 {
                assert(lists_4x4[i][k] == 0);
            } else {
                assert(lists_8x8[i - 6][k] == 0);
            }
        }
    }
}

/// The pictures that a decoder shows of a 4:2:0 stream of progressive frames:
/// the macroblocks, without what is cropped in pairs of samples.
pub open spec fn shown(frame: DecodedFrame) -> (int, int) {
    (
        16 * (frame.pic_width_in_mbs_minus1 + 1) - 2 * (frame.frame_crop_left_offset
            + frame.frame_crop_right_offset),
        16 * (frame.pic_height_in_map_units_minus1 + 1) - 2 * (frame.frame_crop_top_offset
            + frame.frame_crop_bottom_offset),
    )
}

/// What the frames of a stream look like to a decoder that has read `sps`.
pub open spec fn tells_of_the_frames(
    sps: DecodedSps,
    width: int,
    height: int,
    framerate: int,
) -> bool {
    let (head, order, frame) = (sps.head, sps.order, sps.frame);
    &&& head.profile_idc == 77
    &&& !head.constraint_set0_flag && !head.constraint_set1_flag
    &&& !head.constraint_set2_flag && !head.constraint_set3_flag
    &&& !head.constraint_set4_flag && !head.constraint_set5_flag
    &&& head.level_idc == stream::lowest_level(width, height, framerate).number()
    &&& head.seq_parameter_set_id == 0
    &&& sps.chroma is None
    &&& order.log2_max_frame_num_minus4 == 7
    &&& order.pic_order_cnt_type == 0
    &&& order.log2_max_pic_order_cnt_lsb_minus4 == 8
    &&& frame.max_num_ref_frames == 1
    &&& !frame.gaps_in_frame_num_value_allowed_flag
    &&& frame.frame_mbs_only_flag
    &&& frame.direct_8x8_inference_flag
    &&& shown(frame) == (width + width % 2, height + height % 2)
    &&& frame.frame_crop_left_offset == 0 && frame.frame_crop_top_offset == 0
    &&& 0 <= frame.frame_crop_right_offset < 8 && 0 <= frame.frame_crop_bottom_offset < 8
}

/// What the samples of a stream are to a decoder that has read `sps`.
pub open spec fn tells_of_the_samples(sps: DecodedSps, framerate: int, color: Color) -> bool {
    &&& sps.vui matches Some(vui) && {
        let (shape, signal) = (vui.shape, vui.signal);
        let (timing, restriction) = (vui.timing, vui.restriction);
        &&& shape.aspect_ratio_info_present_flag && shape.aspect_ratio_idc == 1
        &&& !shape.overscan_info_present_flag
        &&& signal.video_signal_type_present_flag && signal.video_format == 5
        &&& signal.video_full_range_flag == color.full_range
        &&& signal.colour_description_present_flag
        &&& color.matrix == Matrix::Bt709 ==> signal.colour_primaries == 1
            && signal.transfer_characteristics == 1 && signal.matrix_coefficients == 1
        &&& color.matrix == Matrix::Bt601 ==> signal.colour_primaries == 6
            && signal.transfer_characteristics == 6 && signal.matrix_coefficients == 6
        &&& !signal.chroma_loc_info_present_flag
        &&& timing.timing_info_present_flag && !timing.fixed_frame_rate_flag
        &&& timing.num_units_in_tick == 1 && timing.time_scale == 2 * framerate
        &&& timing.nal_hrd is None && timing.vcl_hrd is None
        &&& !restriction.pic_struct_present_flag
        &&& restriction.bitstream_restriction_flag
        &&& restriction.motion_vectors_over_pic_boundaries_flag
        &&& restriction.max_bytes_per_pic_denom == 2
        &&& restriction.max_bits_per_mb_denom == 1
        &&& restriction.log2_max_mv_length_horizontal == 16
        &&& restriction.log2_max_mv_length_vertical == 16
        &&& restriction.max_num_reorder_frames == 0
        &&& restriction.max_dec_frame_buffering == 1
    }
}

/// The frames are told of by a parameter set that was read as it is.
proof fn lemma_tells_of_the_frames(
    decoded: DecodedSps,
    sps: Sps,
    width: int,
    height: int,
    framerate: int,
    color: Color,
)
    requires
        stream::size_in_range(width, height),
        stream::is_stream_sps(sps, width, height, framerate, color),
        decoder::sps_is(decoded, sps),
        !decoded.frame.frame_cropping_flag ==> decoded.frame.frame_crop_left_offset == 0
            && decoded.frame.frame_crop_right_offset == 0 && decoded.frame.frame_crop_top_offset
            == 0 && decoded.frame.frame_crop_bottom_offset == 0,
    ensures
        tells_of_the_frames(decoded, width, height, framerate),
{
    assert(!decoder::speaks_of_chroma(77)) by {
        let all = seq![100int, 110, 122, 244, 44, 83, 86, 118, 128, 138, 139, 134, 135];
        assert(forall|i: int| 0 <= i < all.len() ==> all[i] != 77);
    }
    assert(parser::crop_unit_x(sps) == 2 && parser::crop_unit_y(sps) == 2);
    let right = 16 * parser::macroblocks(width) - width;
    let bottom = 16 * parser::macroblocks(height) - height;
    assert(0 <= right < 16 && 0 <= bottom < 16);
    stream::lemma_rounded_up(parser::macroblocks(width), width);
    stream::lemma_rounded_up(parser::macroblocks(height), height);
}

/// The samples are told of by a parameter set that was read as it is.
proof fn lemma_tells_of_the_samples(
    decoded: DecodedSps,
    sps: Sps,
    width: int,
    height: int,
    framerate: int,
    color: Color,
)
    requires
        0 <= framerate,
        framerate * 2 <= u32::MAX,
        stream::is_stream_sps(sps, width, height, framerate, color),
        decoder::sps_is(decoded, sps),
    ensures
        tells_of_the_samples(decoded, framerate, color),
{
}

/// A decoder that reads the sequence parameter set of a stream learns what it
/// was configured with: pictures of its size, rounded up to pairs of samples,
/// with nothing cropped at the left or the top; two ticks to a frame; its
/// matrix, and whether the samples use their whole range. It learns that the
/// stream is of the Main profile, and of the level that it is of, with
/// progressive frames of which it has to keep one, and none to wait for.
pub proof fn a_decoder_learns_of_the_stream(
    pps: Pps,
    width: int,
    height: int,
    framerate: int,
    color: Color,
)
    requires
        stream::size_in_range(width, height),
        0 <= framerate,
        framerate * 2 <= u32::MAX,
        stream::is_stream_sps(*pps.sps, width, height, framerate, color),
        stream::is_stream_pps(pps),
    ensures
        ({
            let (sps, rest) = decoder::decode_sps(decoder::payload_of(encode::sps_unit(pps)));
            &&& tells_of_the_frames(sps, width, height, framerate)
            &&& tells_of_the_samples(sps, framerate, color)
            &&& decoder::is_trailing(rest)
        }),
{
    stream::the_parameter_sets_can_be_written(pps, width, height, framerate, color);
    let sps = *pps.sps;
    lemma_no_lists(sps.scaling_lists_4x4, sps.scaling_lists_8x8);
    decoder::a_sequence_parameter_set_is_decoded(3, sps);
    let bits = decoder::payload_of(encode::sps_unit(pps));
    decoder::nothing_is_cropped_where_nothing_is_said(bits);
    let decoded = decoder::decode_sps(bits).0;
    lemma_tells_of_the_frames(decoded, sps, width, height, framerate, color);
    lemma_tells_of_the_samples(decoded, sps, width, height, framerate, color);
}

/// A decoder that reads the picture parameter set of a stream learns that it
/// is coded with CABAC and 4x4 transforms, starts at the quantizer 26, has one
/// reference and no weights, and that the slices say how they are deblocked.
pub proof fn a_decoder_learns_of_the_pictures(
    pps: Pps,
    width: int,
    height: int,
    framerate: int,
    color: Color,
)
    requires
        stream::size_in_range(width, height),
        stream::is_stream_sps(*pps.sps, width, height, framerate, color),
        stream::is_stream_pps(pps),
    ensures
        ({
            let (decoded, rest) = decoder::decode_pps(
                decoder::payload_of(encode::pps_unit(pps)),
                1,
            );
            &&& decoded.pic_parameter_set_id == 0 && decoded.seq_parameter_set_id == 0
            &&& decoded.entropy_coding_mode_flag
            &&& !decoded.bottom_field_pic_order_in_frame_present_flag
            &&& decoded.num_slice_groups_minus1 == 0
            &&& decoded.num_ref_idx_l0_default_active_minus1 == 0
            &&& decoded.num_ref_idx_l1_default_active_minus1 == 0
            &&& !decoded.weighted_pred_flag && decoded.weighted_bipred_idc == 0
            &&& decoded.pic_init_qp_minus26 == 0 && decoded.pic_init_qs_minus26 == 0
            &&& decoded.chroma_qp_index_offset == 0
            &&& decoded.second_chroma_qp_index_offset == 0
            &&& decoded.deblocking_filter_control_present_flag
            &&& !decoded.constrained_intra_pred_flag && !decoded.redundant_pic_cnt_present_flag
            &&& !decoded.transform_8x8_mode_flag && !decoded.pic_scaling_matrix_present_flag
            &&& decoder::is_trailing(rest)
        }),
{
    stream::the_parameter_sets_can_be_written(pps, width, height, framerate, color);
    lemma_no_lists(pps.scaling_lists_4x4, pps.scaling_lists_8x8);
    decoder::a_picture_parameter_set_is_decoded(3, pps);
    assert(pps.sps.chroma_format_idc == 1);
}

} // verus!
