//! What holds of a stream as a whole: groups, numbering, references, rates.

use vstd::prelude::*;
use vstd::arithmetic::div_mod;

use crate::buffer::BufferType;
use crate::buffer::EncMiscParameter;
use crate::buffer::EncPackedHeaderType;
use crate::buffer::PictureH264;
use crate::codec::h264::parser::NaluType;
use crate::codec::h264::readback;
use crate::display::Need;
use crate::dmabuf::ImportError;
use crate::display::Surface;
use crate::encode;
use crate::encode::Config;
use crate::encode::EncoderState;
use crate::encode::FrameMeta;
use crate::encode::ImportFrame;
use crate::encode::LIMIT;
use crate::encode::params;
use crate::encode::Submission;
use crate::encode::wire;
use crate::VaError;

verus! {

/// The state behind one frame that was encoded.
pub open spec fn after_frame(state: EncoderState, keyframe: bool) -> EncoderState {
    state.started(keyframe).advanced()
}

/// The state behind `n` frames that were encoded, none of them forced.
pub open spec fn after_frames(state: EncoderState, n: nat) -> EncoderState
    decreases n,
{
    if n == 0 {
        state
    } else {
        after_frame(after_frames(state, (n - 1) as nat), false)
    }
}

/// A frame that is encoded keeps what holds of an encoder.
pub proof fn a_frame_keeps_the_encoder_well_formed(state: EncoderState, keyframe: bool)
    requires
        state.wf(),
        keyframe || state.config.gop != 0,
    ensures
        state.started(keyframe).wf(),
        state.started(keyframe).counter < state.group(),
        after_frame(state, keyframe).wf(),
{
    if state.config.gop != 0 {
        div_mod::lemma_mod_self_0(state.config.gop as int);
    }
}

/// Where `n` frames lead that follow the first of a group.
proof fn lemma_counter(state: EncoderState, n: nat)
    requires
        state.config.gop > 0,
        state.counter == 1,
    ensures
        after_frames(state, n).config == state.config,
        after_frames(state, n).counter == n as int % state.config.gop as int + 1,
    decreases n,
{
    let gop = state.config.gop as int;
    if n == 0 {
        div_mod::lemma_small_mod(0, gop as nat);
    } else {
        let m = (n - 1) as nat;
        lemma_counter(state, m);
        lemma_next_mod(m as int, gop);
        lemma_in_group(m as int % gop, gop);
    }
}

/// The next number, modulo `d`.
proof fn lemma_next_mod(n: int, d: int)
    requires
        d > 0,
    ensures
        0 <= n % d < d,
        (n + 1) % d == if n % d == d - 1 {
            0
        } else {
            n % d + 1
        },
{
    div_mod::lemma_fundamental_div_mod(n, d);
    let (q, r) = (n / d, n % d);
    if r == d - 1 {
        assert(n + 1 == (q + 1) * d) by (nonlinear_arith)
            requires
                n == d * q + r,
                r == d - 1,
        ;
        div_mod::lemma_mod_multiples_basic(q + 1, d);
    } else {
        assert(n + 1 == q * d + (r + 1)) by (nonlinear_arith)
            requires
                n == d * q + r,
        ;
        div_mod::lemma_fundamental_div_mod_converse_mod(n + 1, d, q, r + 1);
    }
}

/// One more than a place in a group is a whole group only behind its last.
proof fn lemma_in_group(place: int, gop: int)
    requires
        0 <= place < gop,
    ensures
        ((place + 1) % gop == 0) == (place == gop - 1),
{
    if place == gop - 1 {
        div_mod::lemma_mod_self_0(gop);
    } else {
        div_mod::lemma_small_mod((place + 1) as nat, gop as nat);
    }
}

/// Of the frames of a stream, none of them forced, those are IDRs that open
/// a group, and no others.
pub proof fn an_idr_opens_every_group_and_only_there(state: EncoderState, n: nat)
    requires
        state.wf(),
        state.config.gop > 0,
        state.counter == 0,
    ensures
        after_frames(state, n).opens_group(false) == (n as int % state.config.gop as int == 0),
{
    let gop = state.config.gop as int;
    div_mod::lemma_small_mod(0, gop as nat);
    if n > 0 {
        let first = after_frame(state, false);
        lemma_counter(first, (n - 1) as nat);
        lemma_one_more(state, (n - 1) as nat);
        let place = (n - 1) % gop;
        lemma_next_mod(n - 1, gop);
        lemma_in_group(place, gop);
    }
}

/// The frames behind a frame are those behind the state that it leads to.
proof fn lemma_one_more(state: EncoderState, n: nat)
    ensures
        after_frames(state, n + 1) == after_frames(after_frame(state, false), n),
    decreases n,
{
    reveal_with_fuel(after_frames, 2);
    if n > 0 {
        lemma_one_more(state, (n - 1) as nat);
    }
}

/// A forced keyframe restarts the count: the next IDR is a group later.
pub proof fn a_forced_keyframe_restarts_the_count(state: EncoderState, n: nat)
    requires
        state.wf(),
        state.config.gop > 0,
    ensures
        state.opens_group(true),
        after_frames(after_frame(state, true), n).opens_group(false) == ((n as int
            + 1) % state.config.gop as int == 0),
{
    let gop = state.config.gop as int;
    lemma_counter(after_frame(state, true), n);
    lemma_next_mod(n as int, gop);
    lemma_in_group(n as int % gop, gop);
}

/// A frame that was started and not encoded is made up for by the next: one
/// that would have opened a group leaves that to it, and any other leaves
/// everything as it was. So the next frame, if not forced, is encoded in the
/// very state that this one was to be: with its numbers and its reference, and
/// with a reset of the rate control where one was due.
pub proof fn a_failed_frame_is_made_up_for(state: EncoderState, keyframe: bool)
    requires
        state.wf(),
        state.config.gop > 0,
    ensures
        state.started(keyframe).opens_group(false) == state.opens_group(keyframe),
        state.started(keyframe).started(false) == state.started(keyframe),
        state.started(keyframe).reset_rate_control == state.reset_rate_control,
        !state.opens_group(keyframe) ==> state.started(keyframe) == state,
{
    div_mod::lemma_small_mod(0, state.config.gop as nat);
}

/// A frame that could not be imported, or that needs the video processor
/// where there is none, leaves the encoder as it was. So the same frame can be
/// encoded from memory instead, as if this had not been tried.
pub proof fn a_refused_import_leaves_the_encoder_as_it_was(
    state: EncoderState,
    frame: ImportFrame,
    reply: Result<Surface, ImportError>,
    processor: Result<u32, VaError>,
)
    ensures
        reply is Err ==> state.after_import(frame, reply) == state,
        frame.conversion is Some ==> state.after_import(frame, reply) == state,
        processor is Err ==> state.after_processor(processor) == state,
{
}

/// Frames that are encoded keep what holds of an encoder, and its surfaces.
proof fn lemma_frames_keep(state: EncoderState, n: nat)
    requires
        state.wf(),
        state.config.gop > 0,
    ensures
        after_frames(state, n).wf(),
        after_frames(state, n).config == state.config,
        after_frames(state, n).recon == state.recon,
    decreases n,
{
    if n > 0 {
        lemma_frames_keep(state, (n - 1) as nat);
        a_frame_keeps_the_encoder_well_formed(after_frames(state, (n - 1) as nat), false);
    }
}

/// `picture` is the frame `k` behind an IDR, a short-term reference (which is
/// 8) in the surface `id`. Both of its fields count for two of each frame.
pub open spec fn is_frame(picture: PictureH264, id: u32, k: int) -> bool {
    &&& picture.picture_id == id
    &&& picture.frame_idx == k % 2048
    &&& picture.flags == 8
    &&& picture.top_field_order_cnt == picture.bottom_field_order_cnt
    &&& 2 * k <= i32::MAX ==> picture.top_field_order_cnt == 2 * k
}

/// The order count of a frame is the same modulo its limit as twice the
/// number of the frame, whether it is taken for a number with a sign or not.
pub proof fn an_order_count_keeps_its_bits(k: int)
    requires
        k >= 0,
    ensures
        ({
            let count = encode::frame_meta(k).poc as i32;
            &&& 2 * k <= i32::MAX ==> count == 2 * k
            &&& (count - 2 * k) % 0x1_0000_0000 == 0
        }),
{
    let poc: u32 = encode::frame_meta(k).poc;
    assert(poc >= 0x8000_0000u32 ==> (poc as i32) == poc - 0x1_0000_0000) by (bit_vector);
    let (count, twice) = (poc as i32, 2 * k);
    let turns = twice / 0x1_0000_0000;
    assert(twice == 0x1_0000_0000 * turns + twice % 0x1_0000_0000);
    assert(poc == twice % 0x1_0000_0000);
    if poc < 0x8000_0000 {
        assert(count - twice == 0x1_0000_0000 * (-turns));
    } else {
        assert(count - twice == 0x1_0000_0000 * (-turns - 1));
    }
}

/// `picture` names no surface, and says so (which is 1).
pub open spec fn is_no_frame(picture: PictureH264) -> bool {
    &&& picture.picture_id == 0xffff_ffff
    &&& picture.flags == 1
    &&& picture.frame_idx == 0
    &&& picture.top_field_order_cnt == 0 && picture.bottom_field_order_cnt == 0
}

/// The state that the frame `k` behind an IDR finds, the IDR itself for zero.
pub open spec fn before_frame(state: EncoderState, keyframe: bool, k: nat) -> EncoderState {
    if k == 0 {
        state
    } else {
        after_frames(after_frame(state, keyframe), (k - 1) as nat)
    }
}

/// The numbers and the reference that the frame `k` behind an IDR is encoded with.
proof fn lemma_place_in_group(state: EncoderState, keyframe: bool, k: nat)
    requires
        state.wf(),
        state.opens_group(keyframe),
        k < state.config.gop,
    ensures
        ({
            let before = before_frame(state, keyframe, k);
            let started = before.started(k == 0 && keyframe);
            &&& before.opens_group(k == 0 && keyframe) == (k == 0)
            &&& started.counter == k
            &&& started.recon == state.recon
            &&& started.recon.len() == 2
            &&& started.reference_picture() == if k == 0 {
                None::<(u32, FrameMeta)>
            } else {
                Some((state.recon[(k - 1) % 2].id, encode::frame_meta(k - 1)))
            }
        }),
{
    let gop = state.config.gop as int;
    if k > 0 {
        let idr = after_frame(state, keyframe);
        a_frame_keeps_the_encoder_well_formed(state, keyframe);
        lemma_counter(idr, (k - 1) as nat);
        lemma_frames_keep(idr, (k - 1) as nat);
        div_mod::lemma_small_mod((k - 1) as nat, gop as nat);
        div_mod::lemma_small_mod(k, gop as nat);
        assert(before_frame(state, keyframe, k).counter == k);
    }
}

/// A picture with the numbers of the frame `k` is that frame.
proof fn lemma_is_frame(id: u32, k: int)
    requires
        k >= 0,
    ensures
        is_frame(params::h264_pic(id, encode::frame_meta(k)), id, k),
        is_no_frame(params::invalid_pic()),
        encode::frame_meta(k).frame_num == k % 2048,
        encode::frame_meta(k).poc == (2 * k) % 0x1_0000_0000,
{
}

/// A list that holds a frame and nothing else.
proof fn lemma_list(list: Seq<PictureH264>, reference: Option<(u32, FrameMeta)>, k: int)
    requires
        list.len() >= 1,
        params::lists_only(list, reference),
        reference matches Some((id, meta)) ==> meta == encode::frame_meta(k) && k >= 0,
    ensures
        reference matches Some((id, meta)) ==> is_frame(list[0], id, k),
        reference is None ==> is_no_frame(list[0]),
        forall|i: int| 1 <= i < list.len() ==> is_no_frame(#[trigger] list[i]),
{
    if let Some((id, meta)) = reference {
        lemma_is_frame(id, k);
    }
}

/// The frame `k` behind an IDR, in its group: the IDR has an I slice and no
/// reference, and every other frame a P slice and one reference, which is the
/// reconstruction of the frame in front of it, under that frame's numbers. No
/// frame is reconstructed in the surface of its reference, there being two.
/// The frame number is `k` and the picture order count twice that, each modulo
/// its limit.
pub proof fn the_frames_of_a_group(
    state: EncoderState,
    keyframe: bool,
    k: nat,
    submission: Submission,
    source: Surface,
)
    requires
        state.wf(),
        state.opens_group(keyframe),
        k < state.config.gop,
        ({
            let before = before_frame(state, keyframe, k);
            let forced = k == 0 && keyframe;
            before.started(forced).submits(submission, source, before.opens_group(forced))
        }),
    ensures
        before_frame(state, keyframe, k).opens_group(k == 0 && keyframe) == (k == 0),
        submission.buffers@[1] matches BufferType::EncPictureParameter(picture) && {
            let own = state.recon[k as int % 2].id;
            let other = state.recon[(k - 1) % 2].id;
            &&& picture.pic_fields.idr_pic_flag == (k == 0)
            &&& picture.pic_fields.reference_pic_flag
            &&& picture.frame_num == k % 2048
            &&& picture.curr_pic == params::h264_pic(own, encode::frame_meta(k as int))
            &&& params::lists_only(
                picture.reference_frames@,
                if k == 0 {
                    None
                } else {
                    Some((other, encode::frame_meta(k - 1)))
                },
            )
            &&& is_frame(picture.curr_pic, own, k as int)
            &&& k > 0 ==> is_frame(picture.reference_frames@[0], other, k - 1)
            &&& k == 0 ==> is_no_frame(picture.reference_frames@[0])
            &&& forall|i: int| 1 <= i < 16 ==> is_no_frame(#[trigger] picture.reference_frames@[i])
            &&& k > 0 && state.recon[0].id != state.recon[1].id ==> other != own
        },
        submission.buffers@[2] matches BufferType::EncSliceParameter(slice) && {
            let other = state.recon[(k - 1) % 2].id;
            &&& slice.slice_type == if k == 0 {
                2u8
            } else {
                0u8
            }
            &&& slice.pic_order_cnt_lsb == (2 * k) % 4096
            &&& params::lists_only(
                slice.ref_pic_list_0@,
                if k == 0 {
                    None
                } else {
                    Some((other, encode::frame_meta(k - 1)))
                },
            )
            &&& k > 0 ==> is_frame(slice.ref_pic_list_0@[0], other, k - 1)
            &&& k == 0 ==> is_no_frame(slice.ref_pic_list_0@[0])
            &&& forall|i: int| 1 <= i < 32 ==> is_no_frame(#[trigger] slice.ref_pic_list_0@[i])
            &&& forall|i: int| 0 <= i < 32 ==> is_no_frame(#[trigger] slice.ref_pic_list_1@[i])
        },
        submission.source == source,
        submission.idr == (k == 0),
        submission.timestamp == k % 2048,
        submission.recon == k % 2,
        submission.meta.frame_num == k % 2048,
        submission.meta.poc == (2 * k) % 0x1_0000_0000,
{
    let before = before_frame(state, keyframe, k);
    let started = before.started(k == 0 && keyframe);
    lemma_place_in_group(state, keyframe, k);
    the_order_count_keeps_its_low_bits(k as int);
    lemma_is_frame(state.recon[k as int % 2].id, k as int);
    let reference = started.reference_picture();
    let picture = submission.buffers@[1]->EncPictureParameter_0;
    let slice = submission.buffers@[2]->EncSliceParameter_0;
    assert(started.describes(
        submission.buffers@[0],
        submission.buffers@[1],
        submission.buffers@[2],
        k == 0,
    ));
    lemma_list(picture.reference_frames@, reference, k - 1);
    lemma_list(slice.ref_pic_list_0@, reference, k - 1);
    lemma_list(slice.ref_pic_list_1@, None, 0);
}

/// An IDR predicts from nothing. Any other frame predicts from the frame in
/// front of it, which is in the surface that it is not reconstructed in.
pub proof fn a_frame_predicts_from_the_one_before(state: EncoderState, keyframe: bool)
    requires
        state.wf(),
        state.config.gop > 0,
        state.recon[0].id != state.recon[1].id,
    ensures
        ({
            let started = state.started(keyframe);
            let target = started.recon[started.counter % 2].id;
            if state.opens_group(keyframe) {
                started.reference_picture() is None
            } else {
                &&& started.reference_picture() matches Some((id, meta))
                &&& id == state.recon[(state.counter - 1) % 2].id
                &&& meta == encode::frame_meta(state.counter - 1)
                &&& id != target
            }
        }),
{
    div_mod::lemma_small_mod(0, state.config.gop as nat);
}

/// A frame that was encoded is the one that the next predicts from, unless
/// that opens a group.
pub proof fn a_frame_becomes_the_reference(state: EncoderState, keyframe: bool, next: bool)
    requires
        state.wf(),
        state.config.gop > 0,
    ensures
        ({
            let started = state.started(keyframe);
            let behind = after_frame(state, keyframe);
            !behind.opens_group(next) ==> behind.started(next).reference_picture() == Some(
                (started.recon[started.counter % 2].id, encode::frame_meta(started.counter)),
            )
        }),
{
}

/// An IDR has the numbers zero, and within a group the frame number goes up
/// by one, modulo its limit, and the picture order count by two.
pub proof fn the_numbers_count_up(counter: int)
    requires
        counter >= 0,
    ensures
        encode::frame_meta(0) == (FrameMeta { poc: 0, frame_num: 0 }),
        encode::frame_meta(counter + 1).frame_num == (encode::frame_meta(counter).frame_num + 1)
            % LIMIT as int,
        encode::frame_meta(counter + 1).poc == (encode::frame_meta(counter).poc + 2)
            % 0x1_0000_0000,
{
}

/// The low bits of the picture order count in the slice header are those of
/// the true count, however often the full one has wrapped.
pub proof fn the_order_count_keeps_its_low_bits(counter: int)
    requires
        counter >= 0,
    ensures
        encode::frame_meta(counter).poc % (LIMIT * 2) as u32 == (2 * counter) % (LIMIT * 2),
{
    assert(LIMIT * 2 == 4096);
}

/// Every IDR carries its parameter sets, in NAL units of their types.
pub proof fn an_idr_carries_its_parameter_sets(
    state: EncoderState,
    submission: Submission,
    source: Surface,
)
    requires
        state.submits(submission, source, true),
    ensures
        submission.buffers@[4] matches BufferType::EncPackedHeaderData(data) && {
            &&& data@.take(4) == seq![0u8, 0u8, 0u8, 1u8]
            &&& data@[4] == 0x67
            &&& submission.buffers@[3] matches BufferType::EncPackedHeaderParameter(told)
                && told.kind == EncPackedHeaderType::Sequence && told.has_emulation_bytes
                && told.bit_length == (8 * data@.len()) as u32
        },
        submission.buffers@[6] matches BufferType::EncPackedHeaderData(data) && {
            &&& data@.take(4) == seq![0u8, 0u8, 0u8, 1u8]
            &&& data@[4] == 0x68
            &&& submission.buffers@[5] matches BufferType::EncPackedHeaderParameter(told)
                && told.kind == EncPackedHeaderType::Picture && told.has_emulation_bytes
                && told.bit_length == (8 * data@.len()) as u32
        },
{
    readback::a_nal_unit_opens_with_its_type(
        3,
        NaluType::Sps,
        encode::sps_payload(state.pps),
    );
    readback::a_nal_unit_opens_with_its_type(
        3,
        NaluType::Pps,
        encode::pps_payload(state.pps),
    );
}

/// The rate control that goes out with a frame.
pub open spec fn rate_control_of(submission: Submission) -> BufferType {
    submission.buffers@[submission.buffers@.len() - 2]
}

/// The state behind frames that were encoded, of which those were forced that
/// `keyframes` says.
pub open spec fn after_each(state: EncoderState, keyframes: Seq<bool>) -> EncoderState
    decreases keyframes.len(),
{
    if keyframes.len() == 0 {
        state
    } else {
        after_frame(after_each(state, keyframes.drop_last()), keyframes.last())
    }
}

/// The state behind a change of the bitrate, for which there may have been a
/// larger coded buffer.
pub open spec fn rerated(
    state: EncoderState,
    larger: Option<(u32, int)>,
    bitrate: u32,
) -> EncoderState {
    match larger {
        None => state.at_bitrate(bitrate),
        Some((coded, size)) => state.with_coded(coded, size).at_bitrate(bitrate),
    }
}

/// A change of the bitrate stays what it is, and the only change.
proof fn lemma_rerated(
    state: EncoderState,
    larger: Option<(u32, int)>,
    bitrate: u32,
    keyframes: Seq<bool>,
)
    ensures
        ({
            let changed = rerated(state, larger, bitrate);
            let unchanged = after_each(state, keyframes);
            after_each(changed, keyframes) == EncoderState {
                config: Config { bitrate, ..unchanged.config },
                coded: changed.coded,
                coded_size: changed.coded_size,
                reset_rate_control: keyframes.len() == 0 && changed.reset_rate_control,
                ..unchanged
            }
        }),
    decreases keyframes.len(),
{
    if keyframes.len() > 0 {
        lemma_rerated(state, larger, bitrate, keyframes.drop_last());
    }
}

/// A change of the bitrate forces no IDR and leaves the numbering and the
/// reference alone, in whatever number of frames comes after it. Each of them
/// carries the new rate. The next one asks for a reset where that is another
/// rate, and those after it do not.
pub proof fn a_bitrate_change_takes_effect_without_a_keyframe(
    state: EncoderState,
    larger: Option<(u32, int)>,
    bitrate: u32,
    keyframes: Seq<bool>,
    keyframe: bool,
    submission: Submission,
    source: Surface,
)
    requires
        ({
            let before = after_each(rerated(state, larger, bitrate), keyframes);
            before.started(keyframe).submits(submission, source, before.opens_group(keyframe))
        }),
    ensures
        ({
            let before = after_each(rerated(state, larger, bitrate), keyframes);
            let unchanged = after_each(state, keyframes);
            &&& before.opens_group(keyframe) == unchanged.opens_group(keyframe)
            &&& before.started(keyframe).counter == unchanged.started(keyframe).counter
            &&& before.started(keyframe).reference_picture() == unchanged.started(
                keyframe,
            ).reference_picture()
            &&& before.config.bitrate == bitrate
        }),
        rate_control_of(submission) matches BufferType::EncMiscParameter(
            EncMiscParameter::RateControl(rate),
        ) && {
            &&& rate.bits_per_second == bitrate
            &&& rate.window_size == 1500
            &&& rate.rc_flags.disable_frame_skip
            &&& rate.rc_flags.reset == (keyframes.len() == 0 && (state.reset_rate_control || bitrate
                != state.config.bitrate))
        },
{
    lemma_rerated(state, larger, bitrate, keyframes);
}

/// The parameter sets that go out with an IDR arrive.
pub proof fn the_parameter_sets_of_an_encoder_arrive(state: EncoderState)
    requires
        state.wf(),
    ensures
        wire::arrives(NaluType::Sps, encode::sps_elements(state.pps)),
        wire::arrives(NaluType::Pps, encode::pps_elements(state.pps)),
{
    wire::the_parameter_sets_arrive(
        state.pps,
        state.config.width as int,
        state.config.height as int,
        state.config.framerate as int,
        state.config.color,
    );
}

/// A driver passes the probe where there is an entrypoint to encode with.
pub proof fn a_probe_tells_whether_there_is_an_entrypoint(entrypoints: Result<Vec<u32>, VaError>)
    ensures
        Need::Encode.verdict(entrypoints) is Ok <==> encode::entrypoint_for(entrypoints) is Ok,
{
}

} // verus!
