//! What a driver is told of a stream, and what a decoder of it is told.

use std::rc::Rc;

use vstd::prelude::*;

use crate::buffer::BufferType;
use crate::buffer::EncMiscParameter;
use crate::buffer::EncPackedHeaderType;
use crate::buffer::PictureH264;
use crate::codec::h264::decoder;
use crate::codec::h264::decoder::DecodedPps;
use crate::codec::h264::decoder::DecodedSps;
use crate::codec::h264::parser::Level;
use crate::codec::h264::parser::NaluType;
use crate::codec::h264::parser::Pps;
use crate::codec::h264::parser::SliceHeader;
use crate::codec::h264::parser::SliceType;
use crate::codec::h264::parser::Sps;
use crate::codec::h264::readback;
use crate::codec::h264::synthesizer::SynthesizerError;
use crate::display::Surface;
use crate::dmabuf;
use crate::encode;
use crate::encode::Config;
use crate::encode::EncoderState;
use crate::encode::FrameMeta;
use crate::encode::groups;
use crate::encode::params;
use crate::encode::stream;
use crate::encode::Submission;
use crate::encode::upload;
use crate::encode::upload::ImageLayout;
use crate::encode::wire;

verus! {

/// The level of a stream is one whose decoders take it, if there is any, and
/// from 4 up the lowest of those. A stream of no frames to a second is taken
/// for one of one.
pub proof fn a_level_takes_its_stream(
    width: u32,
    height: u32,
    framerate: u32,
    level: Level,
    across: int,
    down: int,
    other: Level,
)
    requires
        width >= 1,
        height >= 1,
        16 * (across - 1) < width <= 16 * across,
        16 * (down - 1) < height <= 16 * down,
        call_ensures(stream::level, (width, height, framerate), level),
    ensures
        ({
            let frames = if framerate == 0 {
                1
            } else {
                framerate as int
            };
            let (frame, rate) = (across * down, across * down * frames);
            &&& stream::is_taken_by(other, frame, rate) ==> stream::is_taken_by(
                level,
                frame,
                rate,
            )
            &&& 40 <= other.number() < level.number() ==> !stream::is_taken_by(other, frame, rate)
            &&& level.number() >= 40
            &&& !stream::is_taken_by(level, frame, rate) ==> level == Level::L6_2
        }),
{
    let frames = if framerate == 0 {
        1
    } else {
        framerate as int
    };
    assert(level == stream::lowest_level(width as int, height as int, frames));
    stream::decoders_of_the_level_take_the_stream(
        width as int,
        height as int,
        frames,
        across,
        down,
        other,
    );
}

/// A coded buffer has room for two seconds of the rate, to the byte, and for
/// 1.5 MB, and no more than it has to.
pub proof fn a_coded_buffer_has_room(bitrate: u32, size: usize)
    requires
        call_ensures(stream::coded_size, (bitrate,), size),
    ensures
        size * 8 + 8 > 2 * bitrate,
        size >= 1_500_000,
        size == 1_500_000 || size * 8 <= 2 * bitrate,
{
}

/// The parameter sets that are built for a configuration, and packed, tell a
/// decoder of it: of its size, its rate, its level and its color.
pub proof fn a_decoder_is_told_of_the_configuration(
    config: &Config,
    pps: Rc<Pps>,
    sps_unit: Result<Vec<u8>, SynthesizerError>,
    pps_unit: Result<Vec<u8>, SynthesizerError>,
)
    requires
        stream::size_in_range(config.width as int, config.height as int),
        config.framerate * 2 <= u32::MAX,
        call_ensures(stream::build_sps_pps, (config,), pps),
        call_ensures(stream::packed_sps, (&*pps.sps,), sps_unit),
        call_ensures(stream::packed_pps, (&*pps,), pps_unit),
    ensures
        sps_unit is Ok,
        pps_unit is Ok,
        sps_unit->Ok_0@.take(4) == seq![0u8, 0u8, 0u8, 1u8] && sps_unit->Ok_0@[4] == 0x67,
        pps_unit->Ok_0@.take(4) == seq![0u8, 0u8, 0u8, 1u8] && pps_unit->Ok_0@[4] == 0x68,
        ({
            let (sps, rest) = decoder::decode_sps(decoder::payload_of(sps_unit->Ok_0@));
            &&& wire::tells_of_the_frames(
                sps,
                config.width as int,
                config.height as int,
                config.framerate as int,
            )
            &&& wire::tells_of_the_samples(sps, config.framerate as int, config.color)
            &&& decoder::is_trailing(rest)
        }),
        ({
            let (told, rest) = decoder::decode_pps(decoder::payload_of(pps_unit->Ok_0@), 1);
            &&& told.pic_parameter_set_id == 0 && told.seq_parameter_set_id == 0
            &&& told.entropy_coding_mode_flag && !told.transform_8x8_mode_flag
            &&& told.pic_init_qp_minus26 == 0
            &&& told.num_ref_idx_l0_default_active_minus1 == 0
            &&& told.deblocking_filter_control_present_flag
            &&& !told.weighted_pred_flag && told.weighted_bipred_idc == 0
            &&& decoder::is_trailing(rest)
        }),
{
    let (width, height) = (config.width as int, config.height as int);
    let framerate = config.framerate as int;
    let sets = *pps;
    stream::the_parameter_sets_can_be_written(sets, width, height, framerate, config.color);
    wire::a_decoder_learns_of_the_stream(sets, width, height, framerate, config.color);
    wire::a_decoder_learns_of_the_pictures(sets, width, height, framerate, config.color);
    assert(sps_unit->Ok_0@ == encode::sps_unit(sets));
    assert(pps_unit->Ok_0@ == encode::pps_unit(sets));
    readback::a_nal_unit_opens_with_its_type(
        3,
        NaluType::Sps,
        encode::sps_payload(sets),
    );
    readback::a_nal_unit_opens_with_its_type(
        3,
        NaluType::Pps,
        encode::pps_payload(sets),
    );
}

/// A driver is told of a sequence what a decoder reads of it, and of the rate
/// and the periods what was given.
pub proof fn a_driver_is_told_what_a_decoder_reads_of_a_sequence(
    sps: &Sps,
    bits_per_second: u32,
    intra_period: u32,
    ip_period: u32,
    buffer: BufferType,
    read: DecodedSps,
)
    requires
        call_ensures(
            params::build_enc_seq_param,
            (sps, bits_per_second, intra_period, ip_period),
            buffer,
        ),
        decoder::sps_is(read, *sps),
    ensures
        buffer matches BufferType::EncSequenceParameter(told) && {
            let (head, order, frame) = (read.head, read.order, read.frame);
            let fields = told.seq_fields;
            &&& told.bits_per_second == bits_per_second
            &&& told.intra_period == intra_period && told.intra_idr_period == intra_period
            &&& told.ip_period == ip_period
            &&& told.seq_parameter_set_id == head.seq_parameter_set_id
            &&& told.level_idc == head.level_idc
            &&& told.max_num_ref_frames == frame.max_num_ref_frames
            &&& told.picture_width_in_mbs == frame.pic_width_in_mbs_minus1 + 1
            &&& told.picture_height_in_mbs == frame.pic_height_in_map_units_minus1 + 1
            &&& fields.frame_mbs_only_flag == frame.frame_mbs_only_flag
            &&& !frame.frame_mbs_only_flag ==> fields.mb_adaptive_frame_field_flag
                == frame.mb_adaptive_frame_field_flag
            &&& fields.direct_8x8_inference_flag == frame.direct_8x8_inference_flag
            &&& fields.log2_max_frame_num_minus4 == order.log2_max_frame_num_minus4
            &&& fields.pic_order_cnt_type == order.pic_order_cnt_type
            &&& order.pic_order_cnt_type == 0 ==> fields.log2_max_pic_order_cnt_lsb_minus4
                == order.log2_max_pic_order_cnt_lsb_minus4
            &&& order.pic_order_cnt_type == 1 ==> {
                &&& fields.delta_pic_order_always_zero_flag
                    == order.delta_pic_order_always_zero_flag
                &&& told.offset_for_non_ref_pic == order.offset_for_non_ref_pic
                &&& told.offset_for_top_to_bottom_field == order.offset_for_top_to_bottom_field
                &&& told.num_ref_frames_in_pic_order_cnt_cycle == order.offset_for_ref_frame.len()
                &&& forall|i: int|
                    0 <= i < order.offset_for_ref_frame.len() ==> #[trigger]
                        told.offset_for_ref_frame@[i] == order.offset_for_ref_frame[i]
            }
            &&& match told.frame_crop {
                None => !frame.frame_cropping_flag,
                Some(crop) => {
                    &&& frame.frame_cropping_flag
                    &&& crop.left == frame.frame_crop_left_offset
                    &&& crop.right == frame.frame_crop_right_offset
                    &&& crop.top == frame.frame_crop_top_offset
                    &&& crop.bottom == frame.frame_crop_bottom_offset
                },
            }
        },
        buffer matches BufferType::EncSequenceParameter(told) && {
            &&& read.chroma matches Some(chroma) ==> {
                &&& told.seq_fields.chroma_format_idc == chroma.chroma_format_idc
                &&& told.bit_depth_luma_minus8 == chroma.bit_depth_luma_minus8
                &&& told.bit_depth_chroma_minus8 == chroma.bit_depth_chroma_minus8
                &&& told.seq_fields.seq_scaling_matrix_present_flag
                    == chroma.seq_scaling_matrix_present_flag
            }
            &&& told.vui_fields is Some == read.vui is Some
            &&& read.vui matches Some(vui) ==> {
                let (shape, timing, restriction) = (vui.shape, vui.timing, vui.restriction);
                let fields = told.vui_fields->0;
                &&& shape.aspect_ratio_info_present_flag ==> {
                    &&& told.aspect_ratio_idc == shape.aspect_ratio_idc
                    &&& fields.aspect_ratio_info_present_flag == shape.aspect_ratio_idc
                    &&& shape.aspect_ratio_idc == 255 ==> told.sar_width == shape.sar_width
                        && told.sar_height == shape.sar_height
                }
                &&& fields.timing_info_present_flag == timing.timing_info_present_flag
                &&& timing.timing_info_present_flag ==> {
                    &&& told.num_units_in_tick == timing.num_units_in_tick
                    &&& told.time_scale == timing.time_scale
                    &&& fields.fixed_frame_rate_flag == timing.fixed_frame_rate_flag
                }
                &&& timing.nal_hrd is Some || timing.vcl_hrd is Some ==> fields.low_delay_hrd_flag
                    == timing.low_delay_hrd_flag
                &&& fields.bitstream_restriction_flag == restriction.bitstream_restriction_flag
                &&& restriction.bitstream_restriction_flag ==> {
                    &&& fields.motion_vectors_over_pic_boundaries_flag
                        == restriction.motion_vectors_over_pic_boundaries_flag
                    &&& fields.log2_max_mv_length_horizontal
                        == restriction.log2_max_mv_length_horizontal
                    &&& fields.log2_max_mv_length_vertical
                        == restriction.log2_max_mv_length_vertical
                }
            }
        },
{
    let told = buffer->EncSequenceParameter_0;
    let cycle = read.order.offset_for_ref_frame;
    if read.order.pic_order_cnt_type == 1 {
        assert forall|i: int| 0 <= i < cycle.len() implies #[trigger]
        told.offset_for_ref_frame@[i] == cycle[i] by {
            assert(sps.offset_for_ref_frame@[i] == sps.offset_for_ref_frame[i]);
        }
    }
}

/// The picture is in the surface `id`, with the numbers of `meta`, and a
/// short-term reference.
pub open spec fn is_short_term(picture: PictureH264, id: u32, meta: FrameMeta) -> bool {
    &&& picture.picture_id == id
    &&& picture.frame_idx == meta.frame_num
    &&& picture.flags == 8
    &&& picture.top_field_order_cnt == picture.bottom_field_order_cnt
    &&& meta.poc <= i32::MAX ==> picture.top_field_order_cnt == meta.poc
    &&& meta.poc > i32::MAX ==> picture.top_field_order_cnt == meta.poc - 0x1_0000_0000
}

/// A picture in a surface is a short-term reference.
proof fn lemma_short_term(id: u32, meta: FrameMeta)
    ensures
        is_short_term(params::h264_pic(id, meta), id, meta),
{
    let poc: u32 = meta.poc;
    assert(poc >= 0x8000_0000u32 ==> (poc as i32) == poc - 0x1_0000_0000) by (bit_vector);
}

/// A reference list starts with `reference`, if there is one, and names no
/// other picture.
pub open spec fn names_only(list: Seq<PictureH264>, reference: Option<(u32, FrameMeta)>) -> bool {
    &&& reference matches Some((id, meta)) ==> is_short_term(list[0], id, meta)
    &&& reference is None ==> groups::is_no_frame(list[0])
    &&& forall|i: int| 1 <= i < list.len() ==> groups::is_no_frame(#[trigger] list[i])
}

/// A driver is told of a picture what a decoder reads of its parameter set,
/// and that it is a short-term reference in the surface that was given, with
/// the numbers that were given. It is told of the one reference there is, and
/// whether it is an IDR picture.
pub proof fn a_driver_is_told_what_a_decoder_reads_of_a_picture(
    pps: &Pps,
    coded: u32,
    recon_id: u32,
    meta: FrameMeta,
    is_idr: bool,
    reference: Option<(u32, FrameMeta)>,
    buffer: BufferType,
    read: DecodedPps,
)
    requires
        call_ensures(
            params::build_enc_pic_param,
            (pps, coded, recon_id, meta, is_idr, reference),
            buffer,
        ),
        pps.weighted_bipred_idc < 4,
        pps.pic_init_qp_minus26 >= -26,
        pps.pic_init_qp_minus26 + 26 <= i8::MAX,
        meta.frame_num <= u16::MAX,
        decoder::pps_start_is(read, *pps),
        decoder::pps_end_is(read, *pps),
    ensures
        buffer matches BufferType::EncPictureParameter(told) && {
            let fields = told.pic_fields;
            &&& fields.idr_pic_flag == is_idr
            &&& fields.reference_pic_flag
            &&& is_short_term(told.curr_pic, recon_id, meta)
            &&& names_only(told.reference_frames@, reference)
            &&& told.coded_buf == coded
            &&& told.frame_num == meta.frame_num
            &&& told.last_picture == 0
            &&& told.pic_parameter_set_id == read.pic_parameter_set_id
            &&& told.seq_parameter_set_id == read.seq_parameter_set_id
            &&& told.pic_init_qp == read.pic_init_qp_minus26 + 26
            &&& told.num_ref_idx_l0_active_minus1 == read.num_ref_idx_l0_default_active_minus1
            &&& told.num_ref_idx_l1_active_minus1 == read.num_ref_idx_l1_default_active_minus1
            &&& told.chroma_qp_index_offset == read.chroma_qp_index_offset
            &&& told.second_chroma_qp_index_offset == read.second_chroma_qp_index_offset
            &&& fields.entropy_coding_mode_flag == read.entropy_coding_mode_flag
            &&& fields.weighted_pred_flag == read.weighted_pred_flag
            &&& fields.weighted_bipred_idc == read.weighted_bipred_idc
            &&& fields.constrained_intra_pred_flag == read.constrained_intra_pred_flag
            &&& fields.transform_8x8_mode_flag == read.transform_8x8_mode_flag
            &&& fields.deblocking_filter_control_present_flag
                == read.deblocking_filter_control_present_flag
            &&& fields.redundant_pic_cnt_present_flag == read.redundant_pic_cnt_present_flag
            &&& fields.pic_scaling_matrix_present_flag == read.pic_scaling_matrix_present_flag
            &&& !fields.pic_order_present_flag
        },
{
    lemma_short_term(recon_id, meta);
    if let Some((id, other)) = reference {
        lemma_short_term(id, other);
    }
}

/// A driver is told of a slice what its header says, by numbers where the
/// standard has numbers, and that there are no weights. The slice has as many
/// references as its header says where it overrides the picture, and else as
/// many as the picture has.
pub proof fn a_driver_is_told_of_a_slice(
    pps: &Pps,
    header: &SliceHeader,
    reference: Option<(u32, FrameMeta)>,
    num_macroblocks: u32,
    buffer: BufferType,
)
    requires
        call_ensures(
            params::build_enc_slice_param,
            (pps, header, reference, num_macroblocks),
            buffer,
        ),
    ensures
        buffer matches BufferType::EncSliceParameter(told) && {
            &&& told.macroblock_address == header.first_mb_in_slice
            &&& told.num_macroblocks == num_macroblocks
            &&& told.macroblock_info == 0xffff_ffff
            &&& told.slice_type == match header.slice_type {
                SliceType::P => 0u8,
                SliceType::B => 1u8,
                SliceType::I => 2u8,
                SliceType::Sp => 3u8,
                SliceType::Si => 4u8,
            }
            &&& told.pic_parameter_set_id == pps.pic_parameter_set_id
            &&& told.idr_pic_id == header.idr_pic_id
            &&& told.pic_order_cnt_lsb == header.pic_order_cnt_lsb
            &&& told.delta_pic_order_cnt_bottom == header.delta_pic_order_cnt_bottom
            &&& told.delta_pic_order_cnt[0] == header.delta_pic_order_cnt[0]
            &&& told.delta_pic_order_cnt[1] == header.delta_pic_order_cnt[1]
            &&& told.direct_spatial_mv_pred_flag == header.direct_spatial_mv_pred_flag
            &&& told.num_ref_idx_active_override_flag == header.num_ref_idx_active_override_flag
            &&& header.num_ref_idx_active_override_flag ==> {
                &&& told.num_ref_idx_l0_active_minus1 == header.num_ref_idx_l0_active_minus1
                &&& told.num_ref_idx_l1_active_minus1 == header.num_ref_idx_l1_active_minus1
            }
            &&& !header.num_ref_idx_active_override_flag ==> {
                &&& told.num_ref_idx_l0_active_minus1 == pps.num_ref_idx_l0_default_active_minus1
                &&& told.num_ref_idx_l1_active_minus1 == pps.num_ref_idx_l1_default_active_minus1
            }
            &&& names_only(told.ref_pic_list_0@, reference)
            &&& names_only(told.ref_pic_list_1@, None)
        },
        buffer matches BufferType::EncSliceParameter(told) && {
            let table = header.pred_weight_table;
            &&& told.luma_weight_l0_flag == 0 && told.luma_weight_l1_flag == 0
            &&& told.chroma_weight_l0_flag == 0 && told.chroma_weight_l1_flag == 0
            &&& told.luma_log2_weight_denom == table.luma_log2_weight_denom
            &&& told.chroma_log2_weight_denom == table.chroma_log2_weight_denom
            &&& told.luma_weight_l0 == table.luma_weight_l0
            &&& told.luma_weight_l1 == table.luma_weight_l1
            &&& told.chroma_weight_l0 == table.chroma_weight_l0
            &&& told.chroma_weight_l1 == table.chroma_weight_l1
            &&& told.cabac_init_idc == header.cabac_init_idc
            &&& told.slice_qp_delta == header.slice_qp_delta
            &&& told.disable_deblocking_filter_idc == header.disable_deblocking_filter_idc
            &&& told.slice_alpha_c0_offset_div2 == header.slice_alpha_c0_offset_div2
            &&& told.slice_beta_offset_div2 == header.slice_beta_offset_div2
        },
{
    if let Some((id, meta)) = reference {
        lemma_short_term(id, meta);
    }
}

/// A picture that is named is a short-term reference, and one that is not
/// names no surface.
pub proof fn a_picture_is_named_or_not(
    id: u32,
    meta: FrameMeta,
    named: PictureH264,
    unnamed: PictureH264,
)
    requires
        call_ensures(params::build_h264_pic, (id, meta), named),
        call_ensures(params::build_invalid_pic, (), unnamed),
    ensures
        is_short_term(named, id, meta),
        groups::is_no_frame(unnamed),
{
    lemma_short_term(id, meta);
}

/// A packed header is told of by its kind and its length in bits, and handed
/// over as it is, protected already.
pub proof fn a_packed_header_is_handed_over(
    kind: EncPackedHeaderType,
    data: &[u8],
    buffers: (BufferType, BufferType),
)
    requires
        data@.len() * 8 <= u32::MAX,
        call_ensures(params::packed_header, (kind, data), buffers),
    ensures
        buffers.0 matches BufferType::EncPackedHeaderParameter(told) && told.kind == kind
            && told.bit_length == 8 * data@.len() && told.has_emulation_bytes,
        buffers.1 matches BufferType::EncPackedHeaderData(bytes) && bytes@ == data@,
{
}

/// The rate control is told of the rate and whether to start anew. It has a
/// window of a second and a half, stays between the quantizers 18 and 36, and
/// drops no frame. The frame rate is told as it is.
pub proof fn the_rates_are_told(
    bits_per_second: u32,
    reset: bool,
    control: BufferType,
    framerate: u32,
    frames: BufferType,
)
    requires
        call_ensures(params::build_rate_control, (bits_per_second, reset), control),
        call_ensures(params::build_frame_rate, (framerate,), frames),
    ensures
        control matches BufferType::EncMiscParameter(EncMiscParameter::RateControl(told)) && {
            &&& told.bits_per_second == bits_per_second
            &&& told.rc_flags.reset == reset
            &&& told.target_percentage == 100
            &&& told.window_size == 1500
            &&& told.min_qp == 18 && told.max_qp == 36 && told.initial_qp == 27
            &&& told.rc_flags.disable_frame_skip && !told.rc_flags.disable_bit_stuffing
            &&& told.basic_unit_size == 0 && told.target_frame_size == 0
        },
        frames matches BufferType::EncMiscParameter(EncMiscParameter::FrameRate(told))
            && told.framerate == framerate && told.framerate_flags == 0,
{
}

/// An upload puts every sample of the frame in its place, the luma in the
/// first plane and the chroma in the second, and touches nothing else.
pub proof fn an_upload_puts_every_sample_in_its_place(
    dest: &mut [u8],
    layout: &ImageLayout,
    width: u32,
    height: u32,
    data: &[u8],
    x: int,
    y: int,
)
    requires
        upload::image_fits(old(dest)@.len() as int, *layout, width as int, height as int),
        upload::rows_apart(layout.pitches[0] as int, width as int),
        upload::rows_apart(layout.pitches[1] as int, width as int),
        upload::planes_apart(*layout, width as int, height as int),
        data@.len() >= width * height + width * (height / 2),
        call_ensures(upload::upload_nv12, (dest, layout, width, height, data), ()),
        0 <= x < width,
    ensures
        final(dest)@.len() == old(dest)@.len(),
        0 <= y < height ==> final(dest)@[layout.offsets[0] + y * layout.pitches[0] + x]
            == data@[y * width + x],
        0 <= y < height as int / 2 ==> final(dest)@[layout.offsets[1] + y * layout.pitches[1] + x]
            == data@[width * height + y * width + x],
{
    upload::every_sample_arrives(
        old(dest)@,
        *layout,
        width as int,
        height as int,
        data@,
    );
    let (luma, chroma) = (layout.offsets[0] as int, layout.offsets[1] as int);
    let (luma_pitch, chroma_pitch) = (layout.pitches[0] as int, layout.pitches[1] as int);
    assert(upload::place(luma, luma_pitch, x, y) == luma + y * luma_pitch + x);
    assert(upload::place(chroma, chroma_pitch, x, y) == chroma + y * chroma_pitch + x);
}

/// Of the image formats the first is taken that is `NV12`, if one is.
pub proof fn the_first_image_format_is_taken(formats: &[u32], taken: Option<usize>)
    requires
        call_ensures(upload::nv12_format, (formats,), taken),
    ensures
        match taken {
            Some(i) => {
                &&& i < formats@.len()
                &&& formats@[i as int] == dmabuf::name('N', 'V', '1', '2')
                &&& forall|j: int|
                    0 <= j < i ==> formats@[j] != dmabuf::name('N', 'V', '1', '2')
            },
            None => forall|j: int|
                0 <= j < formats@.len() ==> formats@[j] != dmabuf::name('N', 'V', '1', '2'),
        },
{
    if taken is None {
        assert forall|j: int| 0 <= j < formats@.len() implies formats@[j] != dmabuf::name(
            'N',
            'V',
            '1',
            '2',
        ) by {
            if formats@[j] == dmabuf::name('N', 'V', '1', '2') {
                assert(formats@.contains(formats@[j]));
            }
        }
    }
}

/// An IDR picture carries what tells a decoder of the stream: of the size, the
/// rate and the color that the encoder is configured with.
pub proof fn an_idr_tells_a_decoder_of_the_stream(
    state: EncoderState,
    submission: Submission,
    source: Surface,
)
    requires
        state.wf(),
        state.config.framerate * 2 <= u32::MAX,
        state.submits(submission, source, true),
    ensures
        submission.buffers@[4] matches BufferType::EncPackedHeaderData(data) && {
            let (sps, rest) = decoder::decode_sps(decoder::payload_of(data@));
            &&& wire::tells_of_the_frames(
                sps,
                state.config.width as int,
                state.config.height as int,
                state.config.framerate as int,
            )
            &&& wire::tells_of_the_samples(
                sps,
                state.config.framerate as int,
                state.config.color,
            )
            &&& decoder::is_trailing(rest)
        },
        submission.buffers@[6] matches BufferType::EncPackedHeaderData(data) && {
            let (told, rest) = decoder::decode_pps(decoder::payload_of(data@), 1);
            &&& told.pic_parameter_set_id == 0 && told.seq_parameter_set_id == 0
            &&& told.entropy_coding_mode_flag && told.pic_init_qp_minus26 == 0
            &&& decoder::is_trailing(rest)
        },
{
    let (width, height) = (state.config.width as int, state.config.height as int);
    let framerate = state.config.framerate as int;
    wire::a_decoder_learns_of_the_stream(
        state.pps,
        width,
        height,
        framerate,
        state.config.color,
    );
    wire::a_decoder_learns_of_the_pictures(
        state.pps,
        width,
        height,
        framerate,
        state.config.color,
    );
}

} // verus!
