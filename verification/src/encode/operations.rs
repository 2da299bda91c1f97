//! What the operations of an encoder come to, frame by frame.

use vstd::prelude::*;

use crate::color::Color;
use crate::color::Matrix;
use crate::display::PictureError;
use crate::display::ProbeError;
use crate::display::Surface;
use crate::display::SurfaceRequest;
use crate::dmabuf;
use crate::dmabuf::DmaBuf;
use crate::dmabuf::ImportError;
use crate::encode;
use crate::encode::BitrateStep;
use crate::encode::Config;
use crate::encode::EncodeError;
use crate::encode::Encoder;
use crate::encode::FrameStep;
use crate::encode::ImportFrame;
use crate::encode::NewCoded;
use crate::encode::promises;
use crate::encode::stream;
use crate::encode::Submission;
use crate::encode::SubmitError;
use crate::encode::Upload;
use crate::encode::upload;
use crate::encode::UploadError;
use crate::encode::Waiting;
use crate::vpp;
use crate::vpp::Blit;
use crate::vpp::NewContext;
use crate::vpp::ProcessorError;
use crate::vpp::RunBlit;
use crate::VaError;

verus! {

/// A configuration is what was asked for, of no device in particular, and in
/// the limited range of BT.709 from 720 rows on and of BT.601 below.
pub proof fn a_configuration_is_what_was_asked_for(
    width: u32,
    height: u32,
    framerate: u32,
    bitrate: u32,
    gop: u32,
    made: Config,
)
    requires
        call_ensures(Config::new, (width, height, framerate, bitrate, gop), made),
    ensures
        made.width == width,
        made.height == height,
        made.framerate == framerate,
        made.bitrate == bitrate,
        made.gop == gop,
        made.device is None,
        made.color.matrix == if height >= 720 {
            Matrix::Bt709
        } else {
            Matrix::Bt601
        },
        !made.color.full_range,
{
}

/// Of the entrypoints that a driver offers the full one, 6, is taken before
/// that of low power, 8, and no other.
pub proof fn an_entrypoint_is_picked_that_is_there(
    offered: &[u32],
    picked: Option<u32>,
    reply: &Result<Vec<u32>, VaError>,
    found: Result<u32, ProbeError>,
    probed: Result<(), ProbeError>,
)
    requires
        call_ensures(encode::pick_entrypoint, (offered,), picked),
        call_ensures(encode::encode_entrypoint, (reply,), found),
        call_ensures(encode::probe, (reply,), probed),
    ensures
        picked is None <==> !offered@.contains(6) && !offered@.contains(8),
        picked matches Some(entrypoint) ==> offered@.contains(entrypoint),
        picked matches Some(entrypoint) ==> entrypoint == 6 || entrypoint == 8
            && !offered@.contains(6),
        *reply matches Err(err) ==> found == Err::<u32, ProbeError>(ProbeError::Query(err))
            && probed == Err::<(), ProbeError>(ProbeError::Query(err)),
        *reply matches Ok(all) ==> match found {
            Ok(entrypoint) => {
                &&& all@.contains(entrypoint)
                &&& entrypoint == 6 || entrypoint == 8 && !all@.contains(6)
                &&& probed is Ok
            },
            Err(err) => {
                &&& err == ProbeError::NoEntrypoint
                &&& !all@.contains(6) && !all@.contains(8)
                &&& probed == Err::<(), ProbeError>(ProbeError::NoEntrypoint)
            },
        },
{
}

/// Packed headers are asked for that the driver takes: of the sequence, the
/// lowest bit, and of the picture, the one above it. The surfaces are those of
/// the stream.
pub proof fn a_driver_is_asked_for_what_it_has(
    reply: Result<u32, VaError>,
    asked: u32,
    config: &Config,
    request: SurfaceRequest,
)
    requires
        call_ensures(encode::packed_headers, (reply,), asked),
        call_ensures(encode::make_surface, (config,), request),
    ensures
        asked == match reply {
            Err(_) => 0,
            Ok(value) => if value >= 0x8000_0000 {
                0
            } else {
                value % 4
            },
        },
        request.rt_format == 1,
        request.fourcc == dmabuf::name('N', 'V', '1', '2'),
        request.width == config.width,
        request.height == config.height,
        request.usage == 0x2,
{
    promises::the_packed_headers_asked_for(reply);
}

/// A frame in memory is taken where there are as many bytes as it has samples:
/// one of luma for each, and one of chroma for every second, in whole rows. It
/// goes to the encoder's own surface. One that is short is refused with its
/// size, and with how many bytes there are and should be.
pub proof fn a_short_frame_is_refused(
    encoder: &Encoder,
    nv12: &[u8],
    keyframe: bool,
    result: Result<Upload, EncodeError>,
)
    requires
        call_ensures(Encoder::encode_nv12, (encoder, nv12, keyframe), result),
    ensures
        ({
            let (width, height) = (encoder@.config.width, encoder@.config.height);
            let twice = 3 * (width * height) + if height % 2 == 0 {
                0
            } else {
                width as int
            };
            match result {
                Ok(upload) => {
                    &&& 2 * nv12@.len() >= twice
                    &&& upload.surface == encoder@.input
                    &&& (upload.width, upload.height) == (width, height)
                    &&& upload.keyframe == keyframe
                },
                Err(err) => {
                    &&& 2 * nv12@.len() < twice
                    &&& err matches EncodeError::ShortFrame {
                        length,
                        width: of_width,
                        height: of_height,
                        expected,
                    } && length == nv12@.len() && of_width == width && of_height == height && 2
                        * expected == twice
                },
            }
        }),
{
    let (width, height) = (encoder@.config.width, encoder@.config.height);
    promises::a_frame_is_as_long_as_its_samples(width as int, height as int);
    let expected = upload::nv12_length(width as int, height as int);
    let half = (height as int + 1) / 2;
    assert(0 <= width * height <= 0x1_0000_0000 * 0x1_0000_0000) by (nonlinear_arith)
        requires
            0 <= width <= 0x1_0000_0000,
            0 <= height <= 0x1_0000_0000,
    ;
    assert(0 <= width * half <= 0x1_0000_0000 * 0x1_0000_0000) by (nonlinear_arith)
        requires
            0 <= width <= 0x1_0000_0000,
            0 <= half <= 0x1_0000_0000,
    ;
    assert(0 <= expected <= u128::MAX);
    assert(nv12@.len() == nv12.len());
}

/// Of the image formats of a driver the first is mapped that is `NV12`.
pub proof fn an_image_is_mapped_as_what_the_frame_is(
    upload: &Upload,
    reply: &Result<Vec<u32>, VaError>,
    result: Result<usize, UploadError>,
)
    requires
        call_ensures(Upload::format, (upload, reply), result),
    ensures
        match result {
            Ok(index) => {
                &&& *reply matches Ok(formats) && index < formats@.len()
                    && formats@[index as int] == dmabuf::name('N', 'V', '1', '2') && forall|
                    i: int,
                |
                    0 <= i < index ==> formats@[i] != dmabuf::name('N', 'V', '1', '2')
            },
            Err(UploadError::Formats(err)) => *reply == Err::<Vec<u32>, VaError>(err),
            Err(err) => {
                &&& err == UploadError::NoFormat
                &&& *reply matches Ok(formats) && forall|i: int|
                    0 <= i < formats@.len() ==> formats@[i] != dmabuf::name('N', 'V', '1', '2')
            },
        },
{
    if let Ok(formats) = *reply {
        if result is Err {
            assert forall|i: int| 0 <= i < formats@.len() implies formats@[i] != dmabuf::name(
                'N',
                'V',
                '1',
                '2',
            ) by {
                if formats@[i] == dmabuf::name('N', 'V', '1', '2') {
                    assert(formats@.contains(formats@[i]));
                }
            }
        }
    }
}

/// A frame opens a group where that is asked for, or where the one before was
/// the last of its group. The picture is encoded out of `source`, and counts
/// from the last that opened a group. Nothing else of the encoder changes.
pub open spec fn is_begun(
    before: encode::EncoderState,
    after: encode::EncoderState,
    submission: Submission,
    source: Surface,
    keyframe: bool,
) -> bool {
    let opens = keyframe || before.counter == 0 || before.counter == before.config.gop;
    &&& submission.source == source
    &&& submission.idr == opens
    &&& after.counter == if opens {
        0
    } else {
        before.counter
    }
    &&& opens ==> after.reference is None
    &&& !opens ==> after.reference == before.reference
    &&& after.config == before.config
    &&& (after.input, after.recon) == (before.input, before.recon)
    &&& after.processor == before.processor
    &&& after.reset_rate_control == before.reset_rate_control
    &&& (after.coded, after.coded_size) == (before.coded, before.coded_size)
    &&& (after.context, after.va_config) == (before.context, before.va_config)
    &&& after.display == before.display
    &&& submission.context == before.context
    &&& submission.coded == before.coded
    &&& submission.timestamp == after.counter % 2048
    &&& submission.meta.frame_num == after.counter % 2048
    &&& submission.meta.poc == (2 * after.counter) % 0x1_0000_0000
    &&& submission.recon == after.counter % 2
    &&& submission.buffers@.len() == if opens {
        9int
    } else {
        5
    }
}

/// A frame that begins is begun.
proof fn lemma_begun(
    before: encode::EncoderState,
    after: encode::EncoderState,
    submission: Submission,
    source: Surface,
    keyframe: bool,
)
    requires
        before.wf(),
        keyframe || before.config.gop != 0,
        before.begins(after, submission, source, keyframe),
    ensures
        is_begun(before, after, submission, source, keyframe),
{
    let gop = before.config.gop;
    if gop != 0 {
        vstd::arithmetic::div_mod::lemma_mod_self_0(gop as int);
        if before.counter < gop {
            vstd::arithmetic::div_mod::lemma_small_mod(before.counter as nat, gop as nat);
        }
    }
}

/// A frame that was uploaded is encoded out of the surface it was uploaded
/// to. One that was not leaves the encoder as it was.
pub proof fn an_uploaded_frame_is_encoded(
    encoder: &mut Encoder,
    upload: Upload,
    reply: Result<(), UploadError>,
    result: Result<Submission, EncodeError>,
)
    requires
        old(encoder)@.wf(),
        upload.keyframe || old(encoder)@.config.gop != 0,
        call_ensures(Encoder::uploaded, (encoder, upload, reply), result),
    ensures
        match reply {
            Err(err) => {
                &&& result == Err::<Submission, EncodeError>(EncodeError::Upload(err))
                &&& final(encoder)@ == old(encoder)@
            },
            Ok(()) => {
                &&& result is Ok
                &&& is_begun(
                    old(encoder)@,
                    final(encoder)@,
                    result->Ok_0,
                    upload.surface,
                    upload.keyframe,
                )
            },
        },
{
    if reply is Ok {
        lemma_begun(
            old(encoder)@,
            final(encoder)@,
            result->Ok_0,
            upload.surface,
            upload.keyframe,
        );
    }
}

/// A frame in a DMA-BUF is refused only for a format without a VA name, of
/// which there are eight. It is encoded in place where it is `NV12`, of the
/// encoder's size, in whole macroblocks, and not known to be in another color.
/// It is converted in any other case: from no color where it is RGB, from its
/// own where that is known, and else from the stream's.
pub proof fn a_frame_in_a_buffer_is_imported(
    encoder: &Encoder,
    buffer: DmaBuf,
    keyframe: bool,
    result: Result<ImportFrame, EncodeError>,
)
    requires
        call_ensures(Encoder::encode_dmabuf, (encoder, buffer, keyframe), result),
    ensures
        ({
            let format = buffer.drm_format;
            let nv12 = format == dmabuf::name('N', 'V', '1', '2');
            let yuyv = format == dmabuf::name('Y', 'U', 'Y', 'V');
            let rgb = promises::is_drm_rgb(format);
            let own = encoder@.config;
            match result {
                Err(err) => {
                    &&& !nv12 && !yuyv && !rgb
                    &&& err == EncodeError::NoFormat { drm_format: format }
                },
                Ok(frame) => {
                    let in_place = {
                        &&& nv12
                        &&& buffer.width == own.width && buffer.height == own.height
                        &&& buffer.width % 16 == 0 && buffer.height % 16 == 0
                        &&& buffer.color matches Some(color) ==> color == own.color
                    };
                    &&& nv12 || yuyv || rgb
                    &&& (frame.conversion is None) == in_place
                    &&& frame.conversion matches Some(conversion) ==> conversion.input_color
                        == if rgb {
                        None
                    } else if buffer.color is Some {
                        buffer.color
                    } else {
                        Some(own.color)
                    }
                    &&& frame.import.display == encoder@.display
                    &&& frame.import.buffer == buffer
                    &&& frame.import.usage == if in_place {
                        0x2u32
                    } else {
                        0x4u32
                    }
                    &&& frame.keyframe == keyframe
                },
            }
        }),
{
    dmabuf::the_names_of_the_formats(buffer.drm_format, 0);
    if dmabuf::va_fourcc(buffer.drm_format) is Some {
        promises::a_frame_is_encoded_in_place_only_where_it_fits(encoder@, buffer, keyframe);
    }
}

/// `blit` is of `source` into the encoder's own surface and the stream's
/// color, from `input_color`: under the context for that size where there is
/// one, and else with a context first. It takes surfaces of one display.
pub open spec fn is_blit(
    encoder: encode::EncoderState,
    processor: vpp::ProcessorState,
    source: Surface,
    input_color: Option<Color>,
    blit: Result<Blit, EncodeError>,
) -> bool {
    let output = encoder.input;
    match blit {
        Err(err) => {
            &&& source.display != processor.display || output.display != processor.display
            &&& err == EncodeError::Processor(ProcessorError::OtherDisplay)
        },
        Ok(blit) => {
            let job = match blit {
                Blit::Run(run) => run.job,
                Blit::Context(new) => new.job,
            };
            &&& source.display == processor.display && output.display == processor.display
            &&& job.input == source
            &&& job.output == output
            &&& job.input_color == input_color
            &&& job.output_color == Some(encoder.config.color)
            &&& match blit {
                Blit::Run(run) => {
                    &&& processor.context(output.width, output.height) == Some(run.context)
                    &&& run.parameters.surface == source.id
                },
                Blit::Context(new) => {
                    &&& processor.context(output.width, output.height) is None
                    &&& new.config == processor.config
                },
            }
        },
    }
}

/// A frame that was imported is encoded where it is, or blitted into the
/// encoder's own surface, once there is a video processor for it. One that
/// was not imported leaves the encoder as it was, and so does one that is not
/// encoded yet.
pub proof fn an_imported_frame_is_encoded_or_converted(
    encoder: &mut Encoder,
    frame: ImportFrame,
    reply: Result<Surface, ImportError>,
    result: Result<FrameStep, EncodeError>,
)
    requires
        old(encoder)@.wf(),
        frame.keyframe || old(encoder)@.config.gop != 0,
        call_ensures(Encoder::imported, (encoder, frame, reply), result),
    ensures
        reply matches Err(err) ==> {
            &&& result == Err::<FrameStep, EncodeError>(EncodeError::Import(err))
            &&& final(encoder)@ == old(encoder)@
        },
        reply matches Ok(source) ==> frame.conversion is None ==> {
            &&& result matches Ok(FrameStep::Submit(submission)) && is_begun(
                old(encoder)@,
                final(encoder)@,
                submission,
                source,
                frame.keyframe,
            )
        },
        reply matches Ok(source) ==> frame.conversion matches Some(conversion) ==> {
            &&& final(encoder)@ == old(encoder)@
            &&& match old(encoder)@.processor {
                None => result matches Ok(FrameStep::Probe(probing, waiting)) && probing.display
                    == old(encoder)@.display && waiting.source == source
                    && waiting.conversion.input_color == conversion.input_color
                    && waiting.keyframe == frame.keyframe,
                Some(processor) => match result {
                    Ok(FrameStep::Blit(blit)) => is_blit(
                        old(encoder)@,
                        processor,
                        source,
                        conversion.input_color,
                        Ok(blit),
                    ),
                    Ok(_) => false,
                    Err(err) => is_blit(
                        old(encoder)@,
                        processor,
                        source,
                        conversion.input_color,
                        Err(err),
                    ),
                },
            }
        },
{
    if let Ok(source) = reply {
        if frame.conversion is None {
            lemma_begun(
                old(encoder)@,
                final(encoder)@,
                result->Ok_0->Submit_0,
                source,
                frame.keyframe,
            );
        }
    }
}

/// A frame that waited for the video processor is blitted by it, out of the
/// surface and the color that it waited in. The processor stays, under the
/// configuration that was made, with no context so far. A configuration that
/// was refused leaves the encoder as it was.
pub proof fn a_frame_that_waited_is_converted(
    encoder: &mut Encoder,
    configuring: vpp::Configuring,
    waiting: Waiting,
    reply: Result<u32, VaError>,
    result: Result<Blit, EncodeError>,
)
    requires
        old(encoder)@.wf(),
        configuring.display == old(encoder)@.display,
        call_ensures(
            Encoder::processor_created,
            (encoder, configuring, waiting, reply),
            result,
        ),
    ensures
        match reply {
            Err(err) => {
                &&& result == Err::<Blit, EncodeError>(
                    EncodeError::Processor(ProcessorError::Config(err)),
                )
                &&& final(encoder)@ == old(encoder)@
            },
            Ok(config) => {
                &&& final(encoder)@ == encode::EncoderState {
                    processor: final(encoder)@.processor,
                    ..old(encoder)@
                }
                &&& final(encoder)@.processor matches Some(processor) && {
                    &&& processor.display == old(encoder)@.display
                    &&& processor.config == config
                    &&& forall|width: u32, height: u32|
                        #[trigger] processor.context(width, height) is None
                    &&& is_blit(
                        old(encoder)@,
                        processor,
                        waiting.source,
                        waiting.conversion.input_color,
                        result,
                    )
                }
            },
        },
{
}

/// A context that was made is the one that the blit runs under, and that is
/// kept for its size. The contexts for other sizes stay as they are. One that
/// was refused leaves the encoder as it was.
pub proof fn a_blit_runs_under_the_context_made_for_it(
    encoder: &mut Encoder,
    new: NewContext,
    reply: Result<u32, VaError>,
    result: Result<RunBlit, EncodeError>,
    width: u32,
    height: u32,
)
    requires
        old(encoder)@.wf(),
        old(encoder)@.processor is Some,
        call_ensures(Encoder::context_created, (encoder, new, reply), result),
    ensures
        match reply {
            Err(error) => {
                &&& result matches Err(
                    EncodeError::Processor(
                        ProcessorError::Context { width: of_width, height: of_height, error: why },
                    ),
                ) && of_width == new.job.output.width && of_height == new.job.output.height && why
                    == error
                &&& final(encoder)@ == old(encoder)@
            },
            Ok(context) => {
                &&& result matches Ok(run) && run.context == context && run.job == new.job
                    && run.parameters.surface == new.job.input.id
                &&& final(encoder)@ == encode::EncoderState {
                    processor: final(encoder)@.processor,
                    ..old(encoder)@
                }
                &&& final(encoder)@.processor matches Some(processor) && {
                    &&& processor.display == old(encoder)@.processor->0.display
                    &&& processor.config == old(encoder)@.processor->0.config
                    &&& processor.context(width, height) == if (width, height) == (
                        new.job.output.width,
                        new.job.output.height,
                    ) {
                        Some(context)
                    } else {
                        old(encoder)@.processor->0.context(width, height)
                    }
                }
            },
        },
{
    if vpp::size_key(width, height) == vpp::size_key(
        new.job.output.width,
        new.job.output.height,
    ) {
        vpp::sizes_have_contexts_of_their_own(
            width,
            height,
            (new.job.output.width, new.job.output.height),
        );
    }
}

/// A frame that was blitted is encoded out of where it was blitted to. One
/// that was not costs the context for its size and nothing else.
pub proof fn a_blitted_frame_is_encoded(
    encoder: &mut Encoder,
    run: &RunBlit,
    keyframe: bool,
    reply: Result<(), PictureError>,
    result: Result<Submission, EncodeError>,
    width: u32,
    height: u32,
)
    requires
        old(encoder)@.wf(),
        old(encoder)@.processor is Some,
        keyframe || old(encoder)@.config.gop != 0,
        call_ensures(Encoder::blitted, (encoder, run, keyframe, reply), result),
    ensures
        match reply {
            Err(err) => {
                &&& result == Err::<Submission, EncodeError>(
                    EncodeError::Processor(ProcessorError::Blit(err)),
                )
                &&& final(encoder)@ == encode::EncoderState {
                    processor: final(encoder)@.processor,
                    ..old(encoder)@
                }
                &&& final(encoder)@.processor matches Some(processor) && {
                    &&& processor.display == old(encoder)@.processor->0.display
                    &&& processor.config == old(encoder)@.processor->0.config
                    &&& processor.context(width, height) == if (width, height) == (
                        run.job.output.width,
                        run.job.output.height,
                    ) {
                        None
                    } else {
                        old(encoder)@.processor->0.context(width, height)
                    }
                }
            },
            Ok(()) => {
                &&& result is Ok
                &&& is_begun(
                    old(encoder)@,
                    final(encoder)@,
                    result->Ok_0,
                    run.job.output,
                    keyframe,
                )
            },
        },
{
    if reply is Ok {
        lemma_begun(old(encoder)@, final(encoder)@, result->Ok_0, run.job.output, keyframe);
    } else if vpp::size_key(width, height) == vpp::size_key(
        run.job.output.width,
        run.job.output.height,
    ) {
        vpp::sizes_have_contexts_of_their_own(
            width,
            height,
            (run.job.output.width, run.job.output.height),
        );
    }
}

/// A bitrate of zero is refused. One that the coded buffer has room for, two
/// seconds of it and 1.5 MB in any case, is taken over, and any other asks for
/// a buffer that has. Nothing else of the encoder changes, but that the rate
/// control is reset where the rate is another one.
pub proof fn a_bitrate_is_taken_over(
    encoder: &mut Encoder,
    bitrate: u32,
    result: Result<BitrateStep, EncodeError>,
)
    requires
        old(encoder)@.wf(),
        call_ensures(Encoder::set_bitrate, (encoder, bitrate), result),
    ensures
        ({
            let room = old(encoder)@.coded_size;
            let enough = room >= 1_500_000 && room >= bitrate as int / 4;
            &&& bitrate == 0 ==> result == Err::<BitrateStep, EncodeError>(
                EncodeError::ZeroBitrate,
            )
            &&& bitrate == 0 || !enough ==> final(encoder)@ == old(encoder)@
            &&& bitrate != 0 && !enough ==> {
                &&& result matches Ok(BitrateStep::Allocate(new))
                &&& new.context == old(encoder)@.context
                &&& new.bitrate == bitrate
                &&& new.size >= 1_500_000 && new.size >= bitrate as int / 4
                &&& new.size == 1_500_000 || new.size == bitrate as int / 4
            }
            &&& bitrate != 0 && enough ==> {
                &&& result == Ok::<BitrateStep, EncodeError>(BitrateStep::Done)
                &&& final(encoder)@ == encode::EncoderState {
                    config: Config { bitrate, ..old(encoder)@.config },
                    reset_rate_control: old(encoder)@.reset_rate_control || bitrate
                        != old(encoder)@.config.bitrate,
                    ..old(encoder)@
                }
            }
        }),
{
    assert(bitrate as int / 4 <= 0x4000_0000);
}

/// A larger coded buffer takes the place of the old one, and with it the rate
/// is taken over that it was for. One that was refused leaves the encoder at
/// its old rate.
pub proof fn a_bitrate_is_taken_over_with_its_buffer(
    encoder: &mut Encoder,
    new: NewCoded,
    reply: Result<u32, VaError>,
    result: Result<(), EncodeError>,
)
    requires
        old(encoder)@.wf(),
        new.size == stream::coded_bytes(new.bitrate as int),
        call_ensures(Encoder::coded_created, (encoder, new, reply), result),
    ensures
        match reply {
            Err(err) => {
                &&& result == Err::<(), EncodeError>(EncodeError::Coded(err))
                &&& final(encoder)@ == old(encoder)@
            },
            Ok(coded) => {
                &&& result is Ok
                &&& final(encoder)@ == encode::EncoderState {
                    config: Config { bitrate: new.bitrate, ..old(encoder)@.config },
                    coded,
                    coded_size: new.size as int,
                    reset_rate_control: old(encoder)@.reset_rate_control || new.bitrate
                        != old(encoder)@.config.bitrate,
                    ..old(encoder)@
                }
            },
        },
{
}

/// The bytes of `segments`, one after the other.
proof fn lemma_joined(segments: Seq<Vec<u8>>)
    ensures
        encode::joined(segments) == segments.map_values(|segment: Vec<u8>| segment@).flatten(),
    decreases segments.len(),
{
    let all = segments.map_values(|segment: Vec<u8>| segment@);
    all.lemma_flatten_and_flatten_alt_are_equivalent();
    if segments.len() > 0 {
        lemma_joined(segments.drop_last());
        let before = segments.drop_last().map_values(|segment: Vec<u8>| segment@);
        before.lemma_flatten_and_flatten_alt_are_equivalent();
        assert(all.drop_last() =~= before);
        assert(all.last() == segments.last()@);
    }
}

/// A frame that was encoded is the bytes of its segments. It is the reference
/// of the next, in the surface it was reconstructed in and under its own
/// numbers, and the next is one further in the group. One that failed leaves
/// the encoder as it was.
pub proof fn an_encoded_frame_is_its_segments(
    encoder: &mut Encoder,
    submission: &Submission,
    reply: Result<Vec<Vec<u8>>, SubmitError>,
    result: Result<Vec<u8>, EncodeError>,
)
    requires
        old(encoder)@.wf(),
        old(encoder)@.awaits(*submission),
        call_ensures(Encoder::submitted, (encoder, submission, reply), result),
    ensures
        match reply {
            Err(SubmitError::Picture(err)) => {
                &&& result == Err::<Vec<u8>, EncodeError>(EncodeError::Picture(err))
                &&& final(encoder)@ == old(encoder)@
            },
            Err(SubmitError::ReadCoded(err)) => {
                &&& result == Err::<Vec<u8>, EncodeError>(EncodeError::ReadCoded(err))
                &&& final(encoder)@ == old(encoder)@
            },
            Ok(segments) => {
                &&& result is Ok
                &&& result->Ok_0@ == segments@.map_values(
                    |segment: Vec<u8>| segment@,
                ).flatten()
                &&& final(encoder)@ == encode::EncoderState {
                    reference: Some((submission.recon as int, submission.meta)),
                    counter: old(encoder)@.counter + 1,
                    reset_rate_control: false,
                    ..old(encoder)@
                }
            },
        },
{
    if let Ok(segments) = reply {
        lemma_joined(segments@);
    }
}

/// A picture that is read is the bytes of its segments, one after the other.
pub proof fn a_picture_is_read_in_order(segments: &Vec<Vec<u8>>, read: Vec<u8>)
    requires
        call_ensures(encode::read_coded, (segments,), read),
    ensures
        read@ == segments@.map_values(|segment: Vec<u8>| segment@).flatten(),
{
    lemma_joined(segments@);
}

/// The configuration that an encoder gives out is the one in effect. Formats
/// are RGB that VA names by the letters of its colors.
pub proof fn an_encoder_says_what_it_does(
    encoder: &Encoder,
    config: &Config,
    fourcc: u32,
    rgb: bool,
)
    requires
        call_ensures(Encoder::config, (encoder,), config),
        call_ensures(encode::is_rgb, (fourcc,), rgb),
    ensures
        *config == encoder@.config,
        rgb == (fourcc == dmabuf::name('B', 'G', 'R', 'X') || fourcc == dmabuf::name(
            'B',
            'G',
            'R',
            'A',
        ) || fourcc == dmabuf::name('R', 'G', 'B', 'X') || fourcc == dmabuf::name(
            'R',
            'G',
            'B',
            'A',
        ) || fourcc == dmabuf::name('X', 'R', 'G', 'B') || fourcc == dmabuf::name(
            'A',
            'R',
            'G',
            'B',
        )),
{
    dmabuf::the_names_of_the_formats(0, fourcc);
}

} // verus!
