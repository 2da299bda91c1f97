//! What a stream declares of itself: its level and its parameter sets.

use std::rc::Rc;

use vstd::prelude::*;

use crate::codec::h264::golomb;
use crate::codec::h264::parser;
use crate::codec::h264::parser::Level;
use crate::codec::h264::parser::NaluType;
use crate::codec::h264::parser::Pps;
use crate::codec::h264::parser::PpsBuilder;
use crate::codec::h264::parser::Profile;
use crate::codec::h264::parser::Sps;
use crate::codec::h264::parser::SpsBuilder;
use crate::codec::h264::parser::VuiParams;
use crate::codec::h264::syntax;
use crate::codec::h264::syntax::Element;
use crate::codec::h264::synthesizer::Synthesizer;
use crate::codec::h264::synthesizer::SynthesizerError;
use crate::color::Color;
use crate::encode::Config;
use crate::encode::LIMIT;

verus! {

/// The levels from 4 up, lowest first: the level, `MaxMBPS` and `MaxFS` of Table A-1.
pub open spec fn levels() -> Seq<(Level, u64, u64)> {
    seq![
        (Level::L4, 245_760, 8_192),
        (Level::L4_2, 522_240, 8_704),
        (Level::L5, 589_824, 22_080),
        (Level::L5_1, 983_040, 36_864),
        (Level::L5_2, 2_073_600, 36_864),
        (Level::L6, 4_177_920, 139_264),
        (Level::L6_1, 8_355_840, 139_264),
        (Level::L6_2, 16_711_680, 139_264),
    ]
}

/// A level covers `frame` macroblocks in a picture and `rate` in a second.
pub open spec fn covers(limits: (Level, u64, u64), frame: int, rate: int) -> bool {
    frame <= limits.2 && rate <= limits.1
}

/// The first level from the one at `i` on that covers the stream, or the last.
pub open spec fn first_covering(i: int, frame: int, rate: int) -> Level
    decreases levels().len() - i,
{
    if i >= levels().len() - 1 || covers(levels()[i], frame, rate) {
        levels()[i].0
    } else {
        first_covering(i + 1, frame, rate)
    }
}

/// The macroblocks of a picture.
pub open spec fn frame_macroblocks(width: int, height: int) -> int {
    parser::macroblocks(width) * parser::macroblocks(height)
}

/// The macroblocks of a second. A frame rate of zero counts as one.
pub open spec fn macroblock_rate(width: int, height: int, framerate: int) -> int {
    frame_macroblocks(width, height) * if framerate < 1 {
        1
    } else {
        framerate
    }
}

/// The lowest level, from 4 up, that covers the stream, or the highest there is.
pub open spec fn lowest_level(width: int, height: int, framerate: int) -> Level {
    first_covering(
        0,
        frame_macroblocks(width, height),
        macroblock_rate(width, height, framerate),
    )
}

/// Returns the lowest H.264 level, from 4 up, whose frame size and macroblock rate cover the stream.
///
/// Only those two limits: the level's maximum bitrate is not checked.
///
/// Level 4 is the floor because decoders take the DPB size from
/// `max_dec_frame_buffering` rather than from the level, so a lower one would
/// buy nothing. Above 1080p (a 1440p or 4K screen share) a fixed level 4
/// would declare a stream its decoder may refuse.
pub fn level(width: u32, height: u32, framerate: u32) -> (r: Level)
    requires
        macroblock_rate(width as int, height as int, framerate as int) <= u64::MAX,
    ensures
        r == lowest_level(width as int, height as int, framerate as int),
{
    let table: [(Level, u64, u64); 8] = [
        (Level::L4, 245_760, 8_192),
        (Level::L4_2, 522_240, 8_704),
        (Level::L5, 589_824, 22_080),
        (Level::L5_1, 983_040, 36_864),
        (Level::L5_2, 2_073_600, 36_864),
        (Level::L6, 4_177_920, 139_264),
        (Level::L6_1, 8_355_840, 139_264),
        (Level::L6_2, 16_711_680, 139_264),
    ];
    assert(table@ =~= levels());
    let mb_width: u64 = (width as u64 + 15) / 16;
    let mb_height: u64 = (height as u64 + 15) / 16;
    assert(mb_width * mb_height <= 268_435_456 * 268_435_456) by (nonlinear_arith)
        requires
            mb_width <= 268_435_456,
            mb_height <= 268_435_456,
    ;
    let frame: u64 = mb_width * mb_height;
    let rate: u64 = frame * if framerate < 1 {
        1u64
    } else {
        framerate as u64
    };
    let mut i: usize = 0;
    while i < 7
        invariant
            i <= 7,
            table@ == levels(),
            lowest_level(width as int, height as int, framerate as int) == first_covering(
                i as int,
                frame as int,
                rate as int,
            ),
        decreases 7 - i,
    {
        let (level, max_rate, max_frame): (Level, u64, u64) = table[i];
        if frame <= max_frame && rate <= max_rate {
            return level;
        }
        i += 1;
    }
    Level::L6_2
}

/// The level found from `from` on is in the table, and is the first there to
/// cover the stream, or the last where none does.
proof fn lemma_found(from: int, frame: int, rate: int) -> (i: int)
    requires
        0 <= from < levels().len(),
    ensures
        from <= i < levels().len(),
        levels()[i].0 == first_covering(from, frame, rate),
        covers(levels()[i], frame, rate) || i == levels().len() - 1,
        forall|j: int| from <= j < i ==> !covers(#[trigger] levels()[j], frame, rate),
    decreases levels().len() - from,
{
    if from >= levels().len() - 1 || covers(levels()[from], frame, rate) {
        from
    } else {
        lemma_found(from + 1, frame, rate)
    }
}

/// The level of a stream covers it if any level does, and no lower one in
/// the table does.
pub proof fn the_level_is_the_lowest_that_covers(
    width: int,
    height: int,
    framerate: int,
    other: int,
)
    requires
        0 <= other < levels().len(),
        covers(
            levels()[other],
            frame_macroblocks(width, height),
            macroblock_rate(width, height, framerate),
        ),
    ensures
        exists|i: int|
            0 <= i <= other && (#[trigger] levels()[i]).0 == lowest_level(width, height, framerate)
                && covers(
                levels()[i],
                frame_macroblocks(width, height),
                macroblock_rate(width, height, framerate),
            ),
{
    let i = lemma_found(
        0,
        frame_macroblocks(width, height),
        macroblock_rate(width, height, framerate),
    );
}

/// `MaxMBPS` of Table A-1: the macroblocks of a second that a decoder of the level takes.
pub open spec fn max_mbps(level: Level) -> int {
    match level {
        Level::L1 => 1_485,
        Level::L1B => 1_485,
        Level::L1_1 => 3_000,
        Level::L1_2 => 6_000,
        Level::L1_3 => 11_880,
        Level::L2_0 => 11_880,
        Level::L2_1 => 19_800,
        Level::L2_2 => 20_250,
        Level::L3 => 40_500,
        Level::L3_1 => 108_000,
        Level::L3_2 => 216_000,
        Level::L4 => 245_760,
        Level::L4_1 => 245_760,
        Level::L4_2 => 522_240,
        Level::L5 => 589_824,
        Level::L5_1 => 983_040,
        Level::L5_2 => 2_073_600,
        Level::L6 => 4_177_920,
        Level::L6_1 => 8_355_840,
        Level::L6_2 => 16_711_680,
    }
}

/// `MaxFS` of Table A-1: the macroblocks of a picture that a decoder of the level takes.
pub open spec fn max_fs(level: Level) -> int {
    match level {
        Level::L1 => 99,
        Level::L1B => 99,
        Level::L1_1 => 396,
        Level::L1_2 => 396,
        Level::L1_3 => 396,
        Level::L2_0 => 396,
        Level::L2_1 => 792,
        Level::L2_2 => 1_620,
        Level::L3 => 1_620,
        Level::L3_1 => 3_600,
        Level::L3_2 => 5_120,
        Level::L4 => 8_192,
        Level::L4_1 => 8_192,
        Level::L4_2 => 8_704,
        Level::L5 => 22_080,
        Level::L5_1 => 36_864,
        Level::L5_2 => 36_864,
        Level::L6 => 139_264,
        Level::L6_1 => 139_264,
        Level::L6_2 => 139_264,
    }
}

/// A decoder of the level takes `frame` macroblocks in a picture, and `rate` in a second.
pub open spec fn is_taken_by(level: Level, frame: int, rate: int) -> bool {
    frame <= max_fs(level) && rate <= max_mbps(level)
}

/// The level that a stream declares is one whose decoders take it, if there
/// is any, and the decoders of no lower level from 4 up do. A picture has as
/// many macroblocks as it takes to hold it.
pub proof fn decoders_of_the_level_take_the_stream(
    width: int,
    height: int,
    framerate: int,
    across: int,
    down: int,
    other: Level,
)
    requires
        width >= 1,
        height >= 1,
        framerate >= 1,
        16 * (across - 1) < width <= 16 * across,
        16 * (down - 1) < height <= 16 * down,
    ensures
        ({
            let level = lowest_level(width, height, framerate);
            let (frame, rate) = (across * down, across * down * framerate);
            &&& is_taken_by(other, frame, rate) ==> is_taken_by(level, frame, rate)
            &&& 40 <= other.number() < level.number() ==> !is_taken_by(other, frame, rate)
            &&& level.number() >= 40
            &&& !is_taken_by(level, frame, rate) ==> level == Level::L6_2
        }),
{
    assert(parser::macroblocks(width) == across);
    assert(parser::macroblocks(height) == down);
    let (frame, rate) = (across * down, across * down * framerate);
    assert(frame_macroblocks(width, height) == frame);
    assert(macroblock_rate(width, height, framerate) == rate);
    let i = lemma_found(0, frame, rate);
    assert(levels()[0] == (Level::L4, 245_760u64, 8_192u64));
    assert(levels()[1] == (Level::L4_2, 522_240u64, 8_704u64));
    assert(levels()[2] == (Level::L5, 589_824u64, 22_080u64));
    assert(levels()[3] == (Level::L5_1, 983_040u64, 36_864u64));
    assert(levels()[4] == (Level::L5_2, 2_073_600u64, 36_864u64));
    assert(levels()[5] == (Level::L6, 4_177_920u64, 139_264u64));
    assert(levels()[6] == (Level::L6_1, 8_355_840u64, 139_264u64));
    assert(levels()[7] == (Level::L6_2, 16_711_680u64, 139_264u64));
}

/// A stream of smaller pictures, at a lower rate, never has a higher level.
pub proof fn a_smaller_stream_has_no_higher_level(
    width: int,
    height: int,
    framerate: int,
    smaller_width: int,
    smaller_height: int,
    smaller_framerate: int,
)
    requires
        0 <= smaller_width <= width,
        0 <= smaller_height <= height,
        smaller_framerate <= framerate,
    ensures
        lowest_level(smaller_width, smaller_height, smaller_framerate).number() <= lowest_level(
            width,
            height,
            framerate,
        ).number(),
{
    let frame = frame_macroblocks(width, height);
    let rate = macroblock_rate(width, height, framerate);
    let smaller_frame = frame_macroblocks(smaller_width, smaller_height);
    let smaller_rate = macroblock_rate(smaller_width, smaller_height, smaller_framerate);
    let (w, h) = (parser::macroblocks(width), parser::macroblocks(height));
    let (sw, sh) = (parser::macroblocks(smaller_width), parser::macroblocks(smaller_height));
    assert(0 <= smaller_frame <= frame) by (nonlinear_arith)
        requires
            0 <= sw <= w,
            0 <= sh <= h,
            smaller_frame == sw * sh,
            frame == w * h,
    ;
    let (f, sf) = (
        if framerate < 1 {
            1
        } else {
            framerate
        },
        if smaller_framerate < 1 {
            1
        } else {
            smaller_framerate
        },
    );
    assert(smaller_rate <= rate) by (nonlinear_arith)
        requires
            0 <= smaller_frame <= frame,
            1 <= sf <= f,
            smaller_rate == smaller_frame * sf,
            rate == frame * f,
    ;
    let i = lemma_found(0, frame, rate);
    let j = lemma_found(0, smaller_frame, smaller_rate);
    if i < j {
        assert(!covers(levels()[i], smaller_frame, smaller_rate));
    }
    assert(levels()[j].0.number() <= levels()[i].0.number());
}

/// The smallest coded buffer.
pub const MIN_CODED_SIZE: usize = 1_500_000;

/// The size of a coded buffer in bytes: two seconds of the rate, and at least 1.5 MB.
pub open spec fn coded_bytes(bitrate: int) -> int {
    if bitrate / 4 >= MIN_CODED_SIZE {
        bitrate / 4
    } else {
        MIN_CODED_SIZE as int
    }
}

/// Returns the coded buffer size in bytes for `bitrate`: two seconds of it, and at least 1.5 MB.
pub fn coded_size(bitrate: u32) -> (r: usize)
    ensures
        r == coded_bytes(bitrate as int),
{
    let size: usize = bitrate as usize / 4;
    if size >= MIN_CODED_SIZE {
        size
    } else {
        MIN_CODED_SIZE
    }
}

/// Two seconds of the rate fit into the coded buffer for it, to the byte,
/// and it is never smaller than 1.5 MB. It is no larger than it has to be.
pub proof fn a_coded_buffer_holds_two_seconds(bitrate: int)
    requires
        bitrate >= 0,
    ensures
        coded_bytes(bitrate) * 8 + 8 > 2 * bitrate,
        coded_bytes(bitrate) >= 1_500_000,
        coded_bytes(bitrate) == 1_500_000 || coded_bytes(bitrate) * 8 <= 2 * bitrate,
{
}

/// A higher rate never asks for a smaller coded buffer.
pub proof fn a_higher_rate_asks_for_no_smaller_buffer(lower: int, higher: int)
    requires
        0 <= lower <= higher,
    ensures
        coded_bytes(lower) <= coded_bytes(higher),
{
}

/// The sequence parameter set of a low-latency stream, out of a blank one:
/// Main, one reference frame, no reordering, square samples, two ticks to a
/// frame.
pub open spec fn stream_sps(
    blank: Sps,
    width: int,
    height: int,
    framerate: int,
    color: Color,
) -> Sps {
    let described = VuiParams {
        aspect_ratio_info_present_flag: true,
        aspect_ratio_idc: 1,
        timing_info_present_flag: true,
        num_units_in_tick: 1,
        time_scale: (framerate * 2) as u32,
        fixed_frame_rate_flag: false,
        video_signal_type_present_flag: true,
        video_full_range_flag: color.full_range,
        colour_description_present_flag: true,
        colour_primaries: color.description().0,
        transfer_characteristics: color.description().1,
        matrix_coefficients: color.description().2,
        bitstream_restriction_flag: true,
        max_num_reorder_frames: 0,
        max_dec_frame_buffering: 1,
        ..blank.vui_parameters
    };
    let sps = Sps {
        seq_parameter_set_id: 0,
        profile_idc: Profile::Main.number(),
        chroma_format_idc: 1,
        level_idc: lowest_level(width, height, framerate),
        log2_max_frame_num_minus4: 7,
        pic_order_cnt_type: 0,
        log2_max_pic_order_cnt_lsb_minus4: 8,
        max_num_ref_frames: 1,
        frame_mbs_only_flag: true,
        direct_8x8_inference_flag: true,
        bit_depth_luma_minus8: 0,
        bit_depth_chroma_minus8: 0,
        vui_parameters_present_flag: true,
        vui_parameters: described,
        ..blank
    };
    parser::with_resolution(sps, width, height)
}

/// `sps` is the sequence parameter set of such a stream.
pub open spec fn is_stream_sps(
    sps: Sps,
    width: int,
    height: int,
    framerate: int,
    color: Color,
) -> bool {
    exists|blank: Sps| #[trigger]
        blank.blank() && sps == stream_sps(blank, width, height, framerate, color)
}

/// The picture parameter set of a low-latency stream, out of a blank one:
/// CABAC, 4x4 transforms, one reference, the middle quantizer.
pub open spec fn stream_pps(blank: Pps) -> Pps {
    Pps {
        pic_parameter_set_id: 0,
        pic_init_qp_minus26: 0,
        entropy_coding_mode_flag: true,
        transform_8x8_mode_flag: false,
        deblocking_filter_control_present_flag: true,
        num_ref_idx_l0_default_active_minus1: 0,
        num_ref_idx_l1_default_active_minus1: 0,
        ..blank
    }
}

/// `pps` is the picture parameter set of such a stream.
pub open spec fn is_stream_pps(pps: Pps) -> bool {
    exists|blank: Pps| #[trigger] blank.blank(*pps.sps) && pps == stream_pps(blank)
}

/// The sizes that a stream can have: at least one sample, and a number of
/// macroblocks that 16 bits hold, each way.
pub open spec fn size_in_range(width: int, height: int) -> bool {
    &&& 1 <= width <= 1_048_560
    &&& 1 <= height <= 1_048_560
}

/// The size of the pictures that `sps` declares: whole macroblocks without
/// what is cropped.
pub open spec fn declared_size(sps: Sps) -> (int, int) {
    (
        16 * (sps.pic_width_in_mbs_minus1 + 1) - if sps.frame_cropping_flag {
            parser::crop_unit_x(sps) * (sps.frame_crop_left_offset + sps.frame_crop_right_offset)
        } else {
            0
        },
        16 * (sps.pic_height_in_map_units_minus1 + 1) - if sps.frame_cropping_flag {
            parser::crop_unit_y(sps) * (sps.frame_crop_top_offset + sps.frame_crop_bottom_offset)
        } else {
            0
        },
    )
}

/// What is cropped in pairs leaves an even length.
pub(crate) proof fn lemma_rounded_up(macroblocks: int, length: int)
    ensures
        16 * macroblocks - 2 * ((16 * macroblocks - length) / 2) == length + length % 2,
{
    let half = length / 2;
    assert(length == 2 * half + length % 2);
    assert((16 * macroblocks - length) / 2 == 8 * macroblocks - half - length % 2);
}

/// What an even length lacks of whole macroblocks is even.
proof fn lemma_even_rest(length: int)
    requires
        length % 2 == 0,
    ensures
        ({
            let rest = 16 * parser::macroblocks(length) - length;
            2 * (rest / 2) == rest
        }),
{
    let (half, blocks) = (length / 2, parser::macroblocks(length));
    assert(length == 2 * half);
    assert(16 * blocks - length == 2 * (8 * blocks - half));
}

/// A stream declares the size that it was configured with, which has to be
/// even, since the chroma samples are cropped in pairs.
pub proof fn a_stream_declares_its_size(
    sps: Sps,
    width: int,
    height: int,
    framerate: int,
    color: Color,
)
    requires
        size_in_range(width, height),
        width % 2 == 0,
        height % 2 == 0,
        is_stream_sps(sps, width, height, framerate, color),
    ensures
        declared_size(sps) == (width, height),
{
    let (x, y) = (parser::crop_unit_x(sps), parser::crop_unit_y(sps));
    assert(x == 2 && y == 2);
    let across = sps.frame_crop_left_offset + sps.frame_crop_right_offset;
    let down = sps.frame_crop_top_offset + sps.frame_crop_bottom_offset;
    assert(x * across == 2 * across && y * down == 2 * down) by (nonlinear_arith)
        requires
            x == 2,
            y == 2,
    ;
    let right = 16 * parser::macroblocks(width) - width;
    let bottom = 16 * parser::macroblocks(height) - height;
    assert(0 <= right < 16 && 0 <= bottom < 16);
    lemma_even_rest(width);
    lemma_even_rest(height);
    assert(sps.pic_width_in_mbs_minus1 + 1 == parser::macroblocks(width));
    assert(sps.pic_height_in_map_units_minus1 + 1 == parser::macroblocks(height));
    assert(sps.frame_cropping_flag == (right != 0 || bottom != 0));
    if sps.frame_cropping_flag {
        assert(across == right / 2 && down == bottom / 2);
        assert(declared_size(sps).0 == 16 * parser::macroblocks(width) - 2 * across);
        assert(declared_size(sps).1 == 16 * parser::macroblocks(height) - 2 * down);
    }
}

/// The base-two logarithms of the counts' moduli.
proof fn lemma_moduli()
    ensures
        golomb::bit_length(2048) == 12,
        golomb::bit_length(4096) == 13,
{
    reveal_with_fuel(golomb::bit_length, 14);
}

/// Builds the parameter sets for a low-latency IPPP stream: the picture
/// parameter set, and in it the sequence parameter set that it refers to.
pub fn build_sps_pps(config: &Config) -> (r: Rc<Pps>)
    requires
        size_in_range(config.width as int, config.height as int),
        config.framerate * 2 <= u32::MAX,
    ensures
        is_stream_sps(
            *r.sps,
            config.width as int,
            config.height as int,
            config.framerate as int,
            config.color,
        ),
        is_stream_pps(*r),
{
    let (width, height, framerate): (u32, u32, u32) = (
        config.width,
        config.height,
        config.framerate,
    );
    let color = config.color;
    proof {
        lemma_moduli();
        lemma_rate_fits(width as int, height as int, framerate as int);
    }
    let level = level(width, height, framerate);
    let (primaries, transfer, matrix): (u8, u8, u8) = color.vui();
    let start = SpsBuilder::new();
    let ghost blank = start.sps();
    let sps = start.seq_parameter_set_id(0).profile_idc(Profile::Main).chroma_format_idc(
        1,
    ).level_idc(level).max_frame_num(LIMIT).pic_order_cnt_type(0).max_pic_order_cnt_lsb(
        LIMIT * 2,
    ).max_num_ref_frames(1).frame_mbs_only_flag(true).direct_8x8_inference_flag(
        level.value() >= Level::L3.value(),
    ).resolution(width, height).bit_depth_luma(8).bit_depth_chroma(8).aspect_ratio(
        1,
        1,
    ).timing_info(1, framerate * 2, false).video_signal_type(
        color.full_range,
        primaries,
        transfer,
        matrix,
    ).max_num_reorder_frames(0).max_dec_frame_buffering(1).build();
    proof {
        let i = lemma_found(
            0,
            frame_macroblocks(width as int, height as int),
            macroblock_rate(width as int, height as int, framerate as int),
        );
        assert(*sps == stream_sps(blank, width as int, height as int, framerate as int, color));
    }
    let start = PpsBuilder::new(sps);
    let ghost blank = start.pps();
    let pps = start.pic_parameter_set_id(0).pic_init_qp(26).entropy_coding_mode_flag(
        true,
    ).transform_8x8_mode_flag(false).deblocking_filter_control_present_flag(
        true,
    ).num_ref_idx_l0_default_active(1).num_ref_idx_l1_default_active_minus1(0).build();
    assert(blank.blank(*pps.sps) && *pps == stream_pps(blank));
    pps
}

/// The macroblock rate of a stream fits 64 bits.
proof fn lemma_rate_fits(width: int, height: int, framerate: int)
    requires
        size_in_range(width, height),
        0 <= framerate <= u32::MAX,
    ensures
        0 <= frame_macroblocks(width, height) <= 65_535 * 65_535,
        macroblock_rate(width, height, framerate) <= u64::MAX,
{
    let (w, h) = (parser::macroblocks(width), parser::macroblocks(height));
    let f = if framerate < 1 {
        1
    } else {
        framerate
    };
    assert(0 <= w * h <= 65_535 * 65_535) by (nonlinear_arith)
        requires
            0 <= w <= 65_535,
            0 <= h <= 65_535,
    ;
    assert((w * h) * f <= u64::MAX) by (nonlinear_arith)
        requires
            0 <= w * h <= 65_535 * 65_535,
            0 <= f <= u32::MAX,
    ;
}

/// Every one of `elements` can be written.
pub open spec fn writable(elements: Seq<Element>) -> bool {
    forall|i: int| 0 <= i < elements.len() ==> (#[trigger] elements[i]).failure() is None
}

/// Elements that can be written each can be written all.
pub(crate) proof fn lemma_writable(elements: Seq<Element>)
    requires
        writable(elements),
    ensures
        syntax::failure(elements) is None,
    decreases elements.len(),
{
    if elements.len() > 0 {
        assert(elements.last() == elements[elements.len() - 1]);
        assert forall|i: int| 0 <= i < elements.len() - 1 implies (
        #[trigger] elements.drop_last()[i]).failure() is None by {
            assert(elements.drop_last()[i] == elements[i]);
        }
        lemma_writable(elements.drop_last());
    }
}

/// Elements that can be written stay so behind others.
pub(crate) proof fn lemma_writable_append(a: Seq<Element>, b: Seq<Element>)
    requires
        writable(a),
        writable(b),
    ensures
        writable(a + b),
{
}

/// The head of the usability information can always be written.
pub(crate) proof fn lemma_vui_head_is_writable(vui: VuiParams)
    ensures
        writable(
            syntax::vui_aspect_syntax(vui) + syntax::vui_overscan_syntax(vui)
                + syntax::vui_signal_syntax(vui) + syntax::vui_chroma_loc_syntax(vui),
        ),
{
    let (a, b) = (syntax::vui_aspect_syntax(vui), syntax::vui_overscan_syntax(vui));
    let (c, d) = (syntax::vui_signal_syntax(vui), syntax::vui_chroma_loc_syntax(vui));
    assert(writable(a));
    assert(writable(b));
    assert(writable(c));
    assert(writable(d));
    lemma_writable_append(a, b);
    lemma_writable_append(a + b, c);
    lemma_writable_append(a + b + c, d);
}

/// The usability information of a stream can be written.
proof fn lemma_vui_is_writable(vui: VuiParams)
    requires
        !vui.nal_hrd_parameters_present_flag,
        !vui.vcl_hrd_parameters_present_flag,
        vui.max_bytes_per_pic_denom < u32::MAX,
        vui.max_bits_per_mb_denom < u32::MAX,
        vui.log2_max_mv_length_horizontal < u32::MAX,
        vui.log2_max_mv_length_vertical < u32::MAX,
        vui.max_num_reorder_frames < u32::MAX,
        vui.max_dec_frame_buffering < u32::MAX,
    ensures
        writable(syntax::vui_syntax(vui)),
{
    lemma_vui_head_is_writable(vui);
    let head = syntax::vui_aspect_syntax(vui) + syntax::vui_overscan_syntax(vui)
        + syntax::vui_signal_syntax(vui) + syntax::vui_chroma_loc_syntax(vui);
    let (e, f) = (syntax::vui_timing_syntax(vui), syntax::vui_hrd_syntax(vui));
    let g = syntax::vui_restriction_syntax(vui);
    assert(writable(e));
    assert(writable(f));
    assert(writable(g));
    lemma_writable_append(head, e);
    lemma_writable_append(head + e, f);
    lemma_writable_append(head + e + f, g);
}

/// The parameter sets of a stream can always be written.
pub proof fn the_parameter_sets_can_be_written(
    pps: Pps,
    width: int,
    height: int,
    framerate: int,
    color: Color,
)
    requires
        size_in_range(width, height),
        is_stream_sps(*pps.sps, width, height, framerate, color),
        is_stream_pps(pps),
    ensures
        syntax::sps_in_range(*pps.sps),
        syntax::failure(syntax::sps_syntax(*pps.sps)) is None,
        syntax::failure(syntax::pps_syntax(pps)) is None,
{
    let sps = *pps.sps;
    lemma_vui_is_writable(sps.vui_parameters);
    assert(writable(syntax::sps_profile_syntax(sps)));
    assert(writable(syntax::sps_level_syntax(sps)));
    assert(writable(syntax::sps_order_syntax(sps)));
    assert(writable(syntax::sps_frame_syntax(sps)));
    assert(writable(syntax::sps_crop_syntax(sps)));
    assert(writable(syntax::sps_syntax(sps)));
    lemma_writable(syntax::sps_syntax(sps));
    assert(writable(syntax::pps_head_syntax(pps)));
    assert(writable(syntax::pps_defaults_syntax(pps)));
    assert(writable(syntax::pps_syntax(pps)));
    lemma_writable(syntax::pps_syntax(pps));
}

/// Returns the NAL unit of a sequence parameter set.
pub fn packed_sps(sps: &Sps) -> (r: Result<Vec<u8>, SynthesizerError>)
    requires
        syntax::sps_in_range(*sps),
    ensures
        match syntax::failure(syntax::sps_syntax(*sps)) {
            None => r is Ok && r->Ok_0@ == syntax::nal_unit(
                3,
                NaluType::Sps,
                syntax::payload(syntax::sps_syntax(*sps)),
                true,
            ),
            Some(err) => r == Err::<Vec<u8>, SynthesizerError>(err),
        },
{
    let mut buf: Vec<u8> = Vec::new();
    match Synthesizer::<'_, Sps>::synthesize(3, sps, &mut buf, true) {
        Ok(()) => {
            assert(buf@ =~= syntax::nal_unit(
                3,
                NaluType::Sps,
                syntax::payload(syntax::sps_syntax(*sps)),
                true,
            ));
            Ok(buf)
        },
        Err(err) => Err(err),
    }
}

/// Returns the NAL unit of a picture parameter set.
pub fn packed_pps(pps: &Pps) -> (r: Result<Vec<u8>, SynthesizerError>)
    ensures
        match syntax::failure(syntax::pps_syntax(*pps)) {
            None => r is Ok && r->Ok_0@ == syntax::nal_unit(
                3,
                NaluType::Pps,
                syntax::payload(syntax::pps_syntax(*pps)),
                true,
            ),
            Some(err) => r == Err::<Vec<u8>, SynthesizerError>(err),
        },
{
    let mut buf: Vec<u8> = Vec::new();
    match Synthesizer::<'_, Pps>::synthesize(3, pps, &mut buf, true) {
        Ok(()) => {
            assert(buf@ =~= syntax::nal_unit(
                3,
                NaluType::Pps,
                syntax::payload(syntax::pps_syntax(*pps)),
                true,
            ));
            Ok(buf)
        },
        Err(err) => Err(err),
    }
}

} // verus!
