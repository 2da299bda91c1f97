//! What holds of an encoder's dealings with a driver, by the numbers.

use vstd::prelude::*;

use crate::buffer::BufferType;
use crate::buffer::EncMiscParameter;
use crate::codec::h264::parser;
use crate::display::Need;
use crate::display::ProbeError;
use crate::display::Surface;
use crate::dmabuf;
use crate::dmabuf::DmaBuf;
use crate::encode;
use crate::encode::Config;
use crate::encode::Conversion;
use crate::encode::EncoderState;
use crate::encode::Submission;
use crate::encode::setup;
use crate::encode::setup::CreateSurface;
use crate::encode::stream;
use crate::encode::upload;
use crate::VaError;

verus! {

/// The DRM name is one of packed RGB.
pub open spec fn is_drm_rgb(drm_format: u32) -> bool {
    ||| drm_format == dmabuf::name('X', 'R', '2', '4')
    ||| drm_format == dmabuf::name('A', 'R', '2', '4')
    ||| drm_format == dmabuf::name('X', 'B', '2', '4')
    ||| drm_format == dmabuf::name('A', 'B', '2', '4')
    ||| drm_format == dmabuf::name('B', 'X', '2', '4')
    ||| drm_format == dmabuf::name('B', 'A', '2', '4')
}

/// A frame in a DMA-BUF is encoded from where it is exactly where it is `NV12`,
/// of the encoder's width and height, in whole macroblocks, and not known to
/// be in another color than the stream. Any other is converted: from the color
/// that it is known to be in, from the stream's where that is not known, and
/// from none where it is RGB, which has no matrix. The buffer is imported as
/// it was given, to be read by whoever reads it next.
pub proof fn a_frame_is_encoded_in_place_only_where_it_fits(
    state: EncoderState,
    buffer: DmaBuf,
    keyframe: bool,
)
    requires
        dmabuf::va_fourcc(buffer.drm_format) is Some,
    ensures
        ({
            let frame = state.importing(buffer, keyframe);
            &&& (frame.conversion is None) == {
                &&& buffer.drm_format == dmabuf::name('N', 'V', '1', '2')
                &&& buffer.width == state.config.width
                &&& buffer.height == state.config.height
                &&& buffer.width % 16 == 0
                &&& buffer.height % 16 == 0
                &&& buffer.color matches Some(color) ==> color == state.config.color
            }
            &&& frame.conversion matches Some(conversion) ==> match conversion.input_color {
                None => is_drm_rgb(buffer.drm_format),
                Some(color) => {
                    &&& !is_drm_rgb(buffer.drm_format)
                    &&& buffer.color matches Some(own) ==> color == own
                    &&& buffer.color is None ==> color == state.config.color
                },
            }
            &&& frame.import.usage == if frame.conversion is None {
                0x2u32
            } else {
                0x4u32
            }
            &&& frame.import.buffer == buffer
            &&& frame.import.display == state.display
            &&& frame.keyframe == keyframe
        }),
{
    dmabuf::the_names_of_the_formats(
        buffer.drm_format,
        dmabuf::va_fourcc(buffer.drm_format)->0,
    );
}

/// A frame is converted from the surface that it was imported as into the
/// surface that pixels are uploaded to, and into the color of the stream.
pub proof fn a_frame_is_converted_for_the_stream(
    state: EncoderState,
    source: Surface,
    conversion: Conversion,
)
    ensures
        ({
            let job = state.job(source, conversion);
            &&& job.input == source
            &&& job.output == state.input
            &&& job.input_color == conversion.input_color
            &&& job.output_color == Some(state.config.color)
        }),
{
}

/// The full entrypoint for encoding is 6 and the one of low power 8, and that
/// is only taken where the other is not there. The entrypoint for processing
/// is 10. Encoding goes by the profile 6, and processing by none.
pub proof fn the_entrypoints_by_number(offered: Seq<u32>)
    ensures
        offered.contains(6) ==> encode::best_entrypoint(offered) == Some(6u32),
        !offered.contains(6) && offered.contains(8) ==> encode::best_entrypoint(offered) == Some(
            8u32,
        ),
        !offered.contains(6) && !offered.contains(8) ==> encode::best_entrypoint(offered) is None,
        Need::Encode.met_by(offered) == (offered.contains(6) || offered.contains(8)),
        Need::Process.met_by(offered) == offered.contains(10),
        Need::Encode.spec_profile() == 6,
        Need::Process.spec_profile() == -1,
{
}

/// A driver that cannot be asked is told apart from one that does not do.
pub proof fn a_probe_says_what_is_wrong(entrypoints: Result<Vec<u32>, VaError>, need: Need)
    ensures
        match entrypoints {
            Err(err) => {
                &&& need.verdict(entrypoints) == Err::<(), ProbeError>(ProbeError::Query(err))
                &&& encode::entrypoint_for(entrypoints) == Err::<u32, ProbeError>(
                    ProbeError::Query(err),
                )
            },
            Ok(offered) => {
                &&& need.met_by(offered@) ==> need.verdict(entrypoints) is Ok
                &&& !need.met_by(offered@) ==> need.verdict(entrypoints) == Err::<(), ProbeError>(
                    ProbeError::NoEntrypoint,
                )
                &&& offered@.contains(6) ==> encode::entrypoint_for(entrypoints) == Ok::<
                    u32,
                    ProbeError,
                >(6)
                &&& !offered@.contains(6) && offered@.contains(8) ==> encode::entrypoint_for(
                    entrypoints,
                ) == Ok::<u32, ProbeError>(8)
                &&& !offered@.contains(6) && !offered@.contains(8) ==> encode::entrypoint_for(
                    entrypoints,
                ) == Err::<u32, ProbeError>(ProbeError::NoEntrypoint)
            },
        },
{
}

/// Of the packed headers that a driver takes, the lowest two bits are asked
/// for: sequence and picture. None where the highest bit says that it takes
/// none, or where it cannot be asked.
pub proof fn the_packed_headers_asked_for(reply: Result<u32, VaError>)
    ensures
        reply is Err ==> encode::packed_kinds(reply) == 0,
        reply matches Ok(value) ==> encode::packed_kinds(reply) == if value >= 0x8000_0000 {
            0
        } else {
            value % 4
        },
{
    if let Ok(value) = reply {
        assert((value & 0x8000_0000 != 0) == (value >= 0x8000_0000)) by (bit_vector);
        assert(value & (0x1u32 | 0x2u32) == value % 4) by (bit_vector);
    }
}

/// A session is configured for 4:2:0 (the attribute 0 is 1) at a constant
/// bitrate (the attribute 5 is 2), and with the packed headers that were asked
/// for (the attribute 10), if any. It is told nothing else.
pub proof fn a_session_is_configured(packed: u32)
    ensures
        ({
            let told = setup::attributes(packed);
            &&& told.len() == if packed == 0 {
                2int
            } else {
                3
            }
            &&& told[0].kind == 0 && told[0].value == 1
            &&& told[1].kind == 5 && told[1].value == 2
            &&& packed != 0 ==> told[2].kind == 10 && told[2].value == packed
        }),
{
}

/// The surfaces of an encoder are 4:2:0, `NV12`, of the size of the stream,
/// and to be read by an encoder.
pub proof fn the_surfaces_are_of_the_stream(config: Config)
    ensures
        ({
            let request = encode::encode_surface_request(config);
            &&& request.rt_format == 1
            &&& request.fourcc == dmabuf::name('N', 'V', '1', '2')
            &&& (request.width, request.height) == (config.width, config.height)
            &&& request.usage == 0x2
        }),
{
}

/// An encoder has what was asked for and nothing behind it: three surfaces
/// are three places to put a picture, the configuration is kept but for the
/// node that was picked, and the first frame opens a group.
pub proof fn a_fresh_encoder_has_what_was_asked_for(
    created: CreateSurface,
    encoder: EncoderState,
    surfaces: Seq<Surface>,
)
    requires
        surfaces.len() == 3,
        created.sets_up(encoder, surfaces),
        created.target.config.gop > 0,
    ensures
        encoder.input == surfaces[0],
        encoder.recon.len() == 2,
        encoder.recon[0] == surfaces[1],
        encoder.recon[1] == surfaces[2],
        encoder.config.width == created.target.config.width,
        encoder.config.height == created.target.config.height,
        encoder.config.framerate == created.target.config.framerate,
        encoder.config.bitrate == created.target.config.bitrate,
        encoder.config.gop == created.target.config.gop,
        encoder.config.color == created.target.config.color,
        encoder.config.device == Some(created.target.device),
        encoder.display == created.target.display,
        (encoder.coded, encoder.context, encoder.va_config) == (
            created.coded,
            created.context,
            created.va_config,
        ),
        encoder.coded_size == created.coded_size,
        encoder.opens_group(false),
        encoder.processor is None && !encoder.reset_rate_control,
{
    vstd::arithmetic::div_mod::lemma_small_mod(0, created.target.config.gop as nat);
}

/// An encoder always has room for two seconds of its rate in one picture.
pub proof fn an_encoder_has_room_for_two_seconds(state: EncoderState)
    requires
        state.wf(),
    ensures
        state.coded_size * 8 + 8 > 2 * state.config.bitrate,
        state.coded_size >= 1_500_000,
{
    stream::a_coded_buffer_holds_two_seconds(state.config.bitrate as int);
}

/// A coded picture is its segments one after the other, with nothing lost
/// and nothing between them.
pub proof fn a_coded_picture_is_its_segments(segments: Seq<Vec<u8>>, more: Seq<Vec<u8>>)
    ensures
        encode::joined(segments + more) == encode::joined(segments) + encode::joined(more),
        segments.len() == 0 ==> encode::joined(segments) == Seq::<u8>::empty(),
        segments.len() == 1 ==> encode::joined(segments) == segments[0]@,
    decreases more.len(),
{
    reveal_with_fuel(encode::joined, 2);
    if segments.len() == 1 {
        assert(encode::joined(segments) =~= segments[0]@);
    }
    if more.len() == 0 {
        assert(segments + more =~= segments);
        assert(encode::joined(segments) + encode::joined(more) =~= encode::joined(segments));
    } else {
        a_coded_picture_is_its_segments(segments, more.drop_last());
        assert((segments + more).drop_last() =~= segments + more.drop_last());
        assert(encode::joined(segments + more) =~= encode::joined(segments) + encode::joined(more));
    }
}

/// An `NV12` frame has one byte of luma to a sample, and half as many of
/// chroma, rounded up to whole rows.
pub proof fn a_frame_is_as_long_as_its_samples(width: int, height: int)
    requires
        width >= 0,
        height >= 0,
    ensures
        height % 2 == 0 ==> 2 * upload::nv12_length(width, height) == 3 * (width * height),
        height % 2 == 1 ==> 2 * upload::nv12_length(width, height) == 3 * (width * height) + width,
{
    let half = (height + 1) / 2;
    if height % 2 == 0 {
        assert(2 * (width * height + width * half) == 3 * (width * height)) by (nonlinear_arith)
            requires
                2 * half == height,
        ;
    } else {
        assert(2 * (width * height + width * half) == 3 * (width * height) + width)
            by (nonlinear_arith)
            requires
                2 * half == height + 1,
        ;
    }
}

/// With every frame the driver is told of the stream: its level, its size in
/// whole macroblocks and what to crop of them, its rate, two ticks to a frame,
/// 4:2:0 of 8 bits in progressive frames with one of reference, and numbers of
/// 11 and 12 bits.
pub proof fn the_driver_is_told_of_the_stream(
    state: EncoderState,
    submission: Submission,
    source: Surface,
    idr: bool,
)
    requires
        state.wf(),
        state.submits(submission, source, idr),
        state.config.framerate * 2 <= u32::MAX,
    ensures
        submission.buffers@[0] matches BufferType::EncSequenceParameter(told) && {
            let config = state.config;
            let (across, down) = (told.picture_width_in_mbs, told.picture_height_in_mbs);
            &&& told.level_idc == stream::lowest_level(
                config.width as int,
                config.height as int,
                config.framerate as int,
            ).number()
            &&& 16 * (across - 1) < config.width <= 16 * across
            &&& 16 * (down - 1) < config.height <= 16 * down
            &&& match told.frame_crop {
                None => 16 * across == config.width && 16 * down == config.height,
                Some(crop) => {
                    &&& crop.left == 0 && crop.top == 0
                    &&& 16 * across - 2 * crop.right == config.width + config.width % 2
                    &&& 16 * down - 2 * crop.bottom == config.height + config.height % 2
                },
            }
            &&& told.bits_per_second == config.bitrate
            &&& told.time_scale == 2 * config.framerate && told.num_units_in_tick == 1
            &&& told.intra_period == 2048 && told.intra_idr_period == 2048 && told.ip_period == 0
            &&& told.max_num_ref_frames == 1
            &&& told.seq_parameter_set_id == 0
            &&& told.bit_depth_luma_minus8 == 0 && told.bit_depth_chroma_minus8 == 0
            &&& told.aspect_ratio_idc == 1
            &&& told.sar_width == 0 && told.sar_height == 0
        },
        submission.buffers@[0] matches BufferType::EncSequenceParameter(told) && {
            let fields = told.seq_fields;
            &&& fields.chroma_format_idc == 1
            &&& fields.frame_mbs_only_flag && !fields.mb_adaptive_frame_field_flag
            &&& !fields.seq_scaling_matrix_present_flag
            &&& fields.direct_8x8_inference_flag
            &&& fields.log2_max_frame_num_minus4 == 7
            &&& fields.pic_order_cnt_type == 0
            &&& fields.log2_max_pic_order_cnt_lsb_minus4 == 8
            &&& !fields.delta_pic_order_always_zero_flag
            &&& told.num_ref_frames_in_pic_order_cnt_cycle == 0
            &&& told.offset_for_non_ref_pic == 0 && told.offset_for_top_to_bottom_field == 0
            &&& forall|i: int| 0 <= i < 256 ==> told.offset_for_ref_frame@[i] == 0
        },
        submission.buffers@[0] matches BufferType::EncSequenceParameter(told) && {
            &&& told.vui_fields matches Some(vui) && {
                &&& vui.aspect_ratio_info_present_flag == 1
                &&& vui.timing_info_present_flag && !vui.fixed_frame_rate_flag
                &&& vui.bitstream_restriction_flag && !vui.low_delay_hrd_flag
                &&& vui.log2_max_mv_length_horizontal == 16
                &&& vui.log2_max_mv_length_vertical == 16
                &&& vui.motion_vectors_over_pic_boundaries_flag
            }
        },
{
    let sps = *state.pps.sps;
    let (width, height) = (state.config.width as int, state.config.height as int);
    let (right, bottom) = (
        16 * parser::macroblocks(width) - width,
        16 * parser::macroblocks(height) - height,
    );
    assert(parser::crop_unit_x(sps) == 2 && parser::crop_unit_y(sps) == 2);
    assert(0 <= right < 16 && 0 <= bottom < 16);
    stream::lemma_rounded_up(parser::macroblocks(width), width);
    stream::lemma_rounded_up(parser::macroblocks(height), height);
    let told = submission.buffers@[0]->EncSequenceParameter_0;
    assert forall|i: int| 0 <= i < 256 implies told.offset_for_ref_frame@[i] == 0 by {
        if i < 255 {
            assert(sps.offset_for_ref_frame[i] == 0);
        }
    }
}

/// A frame is encoded out of the surface and the context, and into the
/// buffer, that are the encoder's, at its quality and its frame rate: a
/// quantizer between 18 and 36, starting half way, and the whole of the rate.
pub proof fn the_driver_is_told_of_the_frame(
    state: EncoderState,
    submission: Submission,
    source: Surface,
    idr: bool,
)
    requires
        state.wf(),
        state.submits(submission, source, idr),
    ensures
        submission.source == source,
        submission.context == state.context,
        submission.coded == state.coded,
        submission.idr == idr,
        submission.buffers@.len() == if idr {
            9int
        } else {
            5
        },
        submission.buffers@[1] matches BufferType::EncPictureParameter(picture) && {
            &&& picture.coded_buf == state.coded
            &&& picture.pic_parameter_set_id == 0 && picture.seq_parameter_set_id == 0
            &&& picture.last_picture == 0
            &&& picture.pic_init_qp == 26
            &&& picture.num_ref_idx_l0_active_minus1 == 0
            &&& picture.num_ref_idx_l1_active_minus1 == 0
            &&& picture.chroma_qp_index_offset == 0 && picture.second_chroma_qp_index_offset == 0
            &&& picture.pic_fields.idr_pic_flag == idr
            &&& picture.pic_fields.reference_pic_flag
            &&& picture.pic_fields.entropy_coding_mode_flag
            &&& picture.pic_fields.deblocking_filter_control_present_flag
            &&& !picture.pic_fields.weighted_pred_flag && picture.pic_fields.weighted_bipred_idc
                == 0
            &&& !picture.pic_fields.constrained_intra_pred_flag
            &&& !picture.pic_fields.transform_8x8_mode_flag
            &&& !picture.pic_fields.redundant_pic_cnt_present_flag
            &&& !picture.pic_fields.pic_order_present_flag
            &&& !picture.pic_fields.pic_scaling_matrix_present_flag
        },
        submission.buffers@[submission.buffers@.len() - 2] matches BufferType::EncMiscParameter(
            EncMiscParameter::RateControl(rate),
        ) && {
            &&& rate.bits_per_second == state.config.bitrate
            &&& rate.target_percentage == 100
            &&& rate.window_size == 1500
            &&& rate.initial_qp == 27 && rate.min_qp == 18 && rate.max_qp == 36
            &&& rate.basic_unit_size == 0 && rate.target_frame_size == 0
            &&& rate.icq_quality_factor == 0 && rate.quality_factor == 0
            &&& rate.rc_flags.reset == state.reset_rate_control
            &&& rate.rc_flags.disable_frame_skip && !rate.rc_flags.disable_bit_stuffing
            &&& rate.rc_flags.mb_rate_control == 0 && rate.rc_flags.temporal_id == 0
            &&& !rate.rc_flags.cfs_i_frames && !rate.rc_flags.enable_parallel_brc
            &&& !rate.rc_flags.enable_dynamic_scaling && rate.rc_flags.frame_tolerance_mode == 0
        },
        submission.buffers@[submission.buffers@.len() - 1] matches BufferType::EncMiscParameter(
            EncMiscParameter::FrameRate(rate),
        ) && rate.framerate == state.config.framerate && rate.framerate_flags == 0,
{
}

/// A frame is one slice of all its macroblocks, with no weights, no
/// modification of what the picture says, and the deblocking of the standard.
pub proof fn a_frame_is_one_slice(
    state: EncoderState,
    submission: Submission,
    source: Surface,
    idr: bool,
    across: int,
    down: int,
)
    requires
        state.wf(),
        state.submits(submission, source, idr),
        16 * (across - 1) < state.config.width <= 16 * across,
        16 * (down - 1) < state.config.height <= 16 * down,
    ensures
        submission.buffers@[2] matches BufferType::EncSliceParameter(slice) && {
            &&& slice.macroblock_address == 0
            &&& slice.num_macroblocks == across * down
            &&& slice.macroblock_info == 0xffff_ffff
            &&& slice.slice_type == if idr {
                2u8
            } else {
                0u8
            }
            &&& slice.pic_parameter_set_id == 0 && slice.idr_pic_id == 0
            &&& slice.delta_pic_order_cnt_bottom == 0
            &&& slice.delta_pic_order_cnt[0] == 0 && slice.delta_pic_order_cnt[1] == 0
            &&& !slice.direct_spatial_mv_pred_flag && !slice.num_ref_idx_active_override_flag
            &&& slice.num_ref_idx_l0_active_minus1 == 0 && slice.num_ref_idx_l1_active_minus1 == 0
            &&& slice.luma_weight_l0_flag == 0 && slice.chroma_weight_l0_flag == 0
            &&& slice.luma_weight_l1_flag == 0 && slice.chroma_weight_l1_flag == 0
            &&& slice.luma_log2_weight_denom == 0 && slice.chroma_log2_weight_denom == 0
            &&& slice.cabac_init_idc == 0 && slice.slice_qp_delta == 0
            &&& slice.disable_deblocking_filter_idc == 0
            &&& slice.slice_alpha_c0_offset_div2 == 0 && slice.slice_beta_offset_div2 == 0
        },
{
    assert(parser::macroblocks(state.config.width as int) == across);
    assert(parser::macroblocks(state.config.height as int) == down);
    assert(across * down <= 65_535 * 65_535) by (nonlinear_arith)
        requires
            0 <= across <= 65_535,
            0 <= down <= 65_535,
    ;
    assert(0 <= across * down) by (nonlinear_arith)
        requires
            0 <= across,
            0 <= down,
    ;
}

} // verus!
