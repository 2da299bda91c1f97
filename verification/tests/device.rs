//! Whole sessions, against a driver that keeps its surfaces in memory.

use std::collections::HashMap;
use std::path::PathBuf;

use moq_vaapi::bindings::USAGE_HINT_DECODER;
use moq_vaapi::bindings::USAGE_HINT_ENCODER;
use moq_vaapi::bindings::USAGE_HINT_EXPORT;
use moq_vaapi::bindings::USAGE_HINT_VPP_READ;
use moq_vaapi::bindings::USAGE_HINT_VPP_WRITE;
use moq_vaapi::bindings::VA_CONFIG_ATTRIB_ENC_PACKED_HEADERS;
use moq_vaapi::bindings::VA_CONFIG_ATTRIB_RATE_CONTROL;
use moq_vaapi::bindings::VA_CONFIG_ATTRIB_RT_FORMAT;
use moq_vaapi::bindings::VA_ENTRYPOINT_ENC_SLICE;
use moq_vaapi::bindings::VA_ENTRYPOINT_VIDEO_PROC;
use moq_vaapi::bindings::VA_ENTRYPOINT_VLD;
use moq_vaapi::bindings::VA_FOURCC_BGRX;
use moq_vaapi::bindings::VA_FOURCC_NV12;
use moq_vaapi::bindings::VA_FOURCC_YUY2;
use moq_vaapi::bindings::VA_INVALID_ID;
use moq_vaapi::bindings::VA_RC_CBR;
use moq_vaapi::bindings::VA_RT_FORMAT_RGB32;
use moq_vaapi::bindings::VA_RT_FORMAT_YUV420;
use moq_vaapi::buffer::BufferType;
use moq_vaapi::buffer::EncMiscParameter;
use moq_vaapi::buffer::EncPackedHeaderType;
use moq_vaapi::buffer::EncPictureParameterBufferH264;
use moq_vaapi::buffer::EncSliceParameterBufferH264;
use moq_vaapi::buffer::EncMiscParameterRateControl;
use moq_vaapi::color::Color;
use moq_vaapi::decode::ExportedFrame;
use moq_vaapi::display::Display;
use moq_vaapi::display::Import;
use moq_vaapi::display::NodeReply;
use moq_vaapi::display::OpenDrmDisplayError;
use moq_vaapi::display::PictureError;
use moq_vaapi::display::ProbeError;
use moq_vaapi::display::Surface;
use moq_vaapi::display::SurfaceRequest;
use moq_vaapi::dmabuf::DmaBuf;
use moq_vaapi::dmabuf::ImportError;
use moq_vaapi::dmabuf::DRM_FORMAT_NV12;
use moq_vaapi::dmabuf::DRM_FORMAT_XRGB8888;
use moq_vaapi::encode::probe;
use moq_vaapi::encode::setup::Created;
use moq_vaapi::encode::setup::Opening;
use moq_vaapi::encode::setup::SetupError;
use moq_vaapi::encode::setup::Tried;
use moq_vaapi::encode::upload;
use moq_vaapi::encode::upload::ImageLayout;
use moq_vaapi::encode::BitrateStep;
use moq_vaapi::encode::Config;
use moq_vaapi::encode::EncodeError;
use moq_vaapi::encode::Encoder;
use moq_vaapi::encode::FrameStep;
use moq_vaapi::encode::Submission;
use moq_vaapi::encode::SubmitError;
use moq_vaapi::encode::UploadError;
use moq_vaapi::va_check;
use moq_vaapi::vpp::Blit;
use moq_vaapi::vpp::Finding;
use moq_vaapi::vpp::Processor;
use moq_vaapi::vpp::ProcessorError;
use moq_vaapi::vpp::RunBlit;
use moq_vaapi::VaError;

const WIDTH: u32 = 320;
const HEIGHT: u32 = 240;

/// A driver's `VA_STATUS_ERROR_OPERATION_FAILED`.
fn failed() -> VaError {
    va_check(1).unwrap_err()
}

/// One surface: its format, and its pixels as tightly packed NV12.
#[derive(Clone)]
struct Pixels {
    fourcc: u32,
    width: u32,
    height: u32,
    modifier: u64,
    usage: u32,
    data: Vec<u8>,
}

/// What the fake driver refuses.
#[derive(Default)]
struct Refusals {
    config: bool,
    context: bool,
    coded: bool,
    surface: bool,
    no_surface: bool,
    import: bool,
    formats: bool,
    sync: bool,
    picture: bool,
    map: bool,
    blit: bool,
    processor: bool,
}

/// A driver that encodes and post-processes, with everything in memory.
struct Driver {
    next: u32,
    surfaces: HashMap<u32, Pixels>,
    refuses: Refusals,
    /// How many contexts were created for the video processor.
    vpp_contexts: usize,
    /// The sizes of the coded buffers that were created.
    coded_sizes: Vec<usize>,
}

impl Driver {
    fn new() -> Self {
        Driver {
            next: 1,
            surfaces: HashMap::new(),
            refuses: Refusals::default(),
            vpp_contexts: 0,
            coded_sizes: Vec::new(),
        }
    }

    fn id(&mut self) -> u32 {
        self.next += 1;
        self.next
    }

    /// Only one node is there, and it encodes; another only decodes.
    fn open_node(&mut self, device: &PathBuf) -> Result<Display, OpenDrmDisplayError> {
        match device.to_str() {
            Some("/dev/dri/renderD128") => Ok(Display { handle: 128 }),
            Some("/dev/dri/renderD129") => Ok(Display { handle: 129 }),
            Some("/dev/dri/renderD131") => Err(OpenDrmDisplayError::VaInitialize(failed())),
            _ => Err(OpenDrmDisplayError::DeviceOpen),
        }
    }

    fn nodes() -> Vec<PathBuf> {
        vec![
            PathBuf::from("/dev/dri/renderD131"),
            PathBuf::from("/dev/dri/renderD128"),
            PathBuf::from("/dev/dri/renderD129"),
            PathBuf::from("/dev/dri/renderD130"),
        ]
    }

    fn entrypoints(&self, display: Display, profile: i32) -> Result<Vec<u32>, VaError> {
        match (display.handle, profile) {
            (128, 6) => Ok(vec![VA_ENTRYPOINT_VLD]),
            (129, 6) => Ok(vec![VA_ENTRYPOINT_VLD, VA_ENTRYPOINT_ENC_SLICE]),
            (129, -1) => Ok(vec![VA_ENTRYPOINT_VIDEO_PROC]),
            (_, -1) => Ok(vec![]),
            _ => Err(failed()),
        }
    }

    fn try_node(&mut self, device: &PathBuf, profile: i32) -> NodeReply {
        match self.open_node(device) {
            Ok(display) => NodeReply::Opened {
                display,
                entrypoints: self.entrypoints(display, profile),
            },
            Err(err) => NodeReply::Refused(err),
        }
    }

    fn create(&mut self, display: Display, request: SurfaceRequest) -> Result<Vec<Surface>, VaError> {
        if self.refuses.surface {
            return Err(failed());
        }
        if self.refuses.no_surface {
            return Ok(vec![]);
        }
        let id = self.id();
        let (w, h) = (request.width as usize, request.height as usize);
        self.surfaces.insert(
            id,
            Pixels {
                fourcc: request.fourcc,
                width: request.width,
                height: request.height,
                modifier: 0x100000000000009,
                usage: request.usage,
                data: vec![0u8; w * h + w * h.div_ceil(2)],
            },
        );
        Ok(vec![Surface { id, display, width: request.width, height: request.height }])
    }

    fn import(&mut self, import: &Import) -> Result<Surface, ImportError> {
        if self.refuses.import || import.buffer.modifier == 0x00ff_ffff_ffff_fffe {
            return Err(ImportError::Refused(failed()));
        }
        let request = SurfaceRequest {
            rt_format: VA_RT_FORMAT_YUV420,
            fourcc: import.buffer.drm_format,
            width: import.buffer.width,
            height: import.buffer.height,
            usage: import.usage,
        };
        Ok(self.create(import.display, request).expect("a surface").pop().expect("one surface"))
    }

    /// Opens an encoder as a caller does.
    fn encoder(&mut self, config: Config) -> Result<Encoder, SetupError> {
        let target = match Encoder::new(config) {
            Opening::Named(node) => {
                let reply = self.open_node(&node.device);
                node.opened(reply)?
            }
            Opening::Unnamed(find) => {
                let mut tried = find.listed(Driver::nodes())?;
                loop {
                    match tried {
                        Tried::Next(node) => {
                            let reply =
                                self.try_node(&node.search.node, node.search.need.profile());
                            tried = node.answered(reply)?;
                        }
                        Tried::Found(target) => break target,
                    }
                }
            }
        };
        let display = target.target.display;
        let headers = target.answered(self.entrypoints(display, 6))?;
        assert_eq!(headers.entrypoint, VA_ENTRYPOINT_ENC_SLICE);
        let config = headers.answered(Ok(0x1f));
        let attributes: Vec<(u32, u32)> =
            config.attributes.iter().map(|a| (a.kind, a.value)).collect();
        assert_eq!(
            attributes,
            vec![
                (VA_CONFIG_ATTRIB_RT_FORMAT, VA_RT_FORMAT_YUV420),
                (VA_CONFIG_ATTRIB_RATE_CONTROL, VA_RC_CBR),
                (VA_CONFIG_ATTRIB_ENC_PACKED_HEADERS, 3),
            ]
        );
        let reply = if self.refuses.config { Err(failed()) } else { Ok(self.id()) };
        let context = config.created(reply)?;
        let reply = if self.refuses.context { Err(failed()) } else { Ok(self.id()) };
        let coded = context.created(reply)?;
        self.coded_sizes.push(coded.size);
        let reply = if self.refuses.coded { Err(failed()) } else { Ok(self.id()) };
        let mut surface = coded.created(reply)?;
        loop {
            assert_eq!(surface.request.fourcc, VA_FOURCC_NV12);
            assert_eq!(surface.request.rt_format, VA_RT_FORMAT_YUV420);
            assert_eq!(surface.request.usage, USAGE_HINT_ENCODER);
            let reply = self.create(display, surface.request);
            match surface.created(reply)? {
                Created::Next(next) => surface = next,
                Created::Ready(encoder) => return Ok(encoder),
            }
        }
    }

    /// Encodes a picture: its parameter sets where they are packed, and a
    /// slice NAL unit as long as the rate allows.
    fn render(&mut self, submission: &Submission) -> Result<Vec<Vec<u8>>, SubmitError> {
        if self.refuses.picture {
            return Err(SubmitError::Picture(PictureError::Sync(failed())));
        }
        if self.refuses.map {
            return Err(SubmitError::ReadCoded(failed()));
        }
        let mut head = Vec::new();
        for buffer in &submission.buffers {
            if let BufferType::EncPackedHeaderData(data) = buffer {
                head.extend(data);
            }
        }
        let rate = rate_control(submission);
        let mut slice = vec![0, 0, 0, 1, if submission.idr { 0x65 } else { 0x41 }];
        slice.resize((rate.bits_per_second / 30 / 8) as usize, 0xff);
        Ok(vec![head, slice])
    }

    fn finish(&mut self, encoder: &mut Encoder, submission: Submission) -> Result<Vec<u8>, EncodeError> {
        let reply = self.render(&submission);
        encoder.submitted(&submission, reply)
    }

    /// Uploads and returns the picture to encode.
    fn upload(&mut self, encoder: &mut Encoder, nv12: &[u8], keyframe: bool) -> Result<Submission, EncodeError> {
        let upload = encoder.encode_nv12(nv12, keyframe)?;
        let formats = if self.refuses.formats {
            Ok(vec![VA_FOURCC_YUY2])
        } else {
            Ok(vec![VA_FOURCC_YUY2, VA_FOURCC_NV12])
        };
        let format = match upload.format(&formats) {
            Ok(format) => format,
            Err(err) => return encoder.uploaded(upload, Err(err)),
        };
        assert_eq!(format, 1);
        let (w, h) = (upload.width as usize, upload.height as usize);
        let (pitch, rows) = (w.next_multiple_of(64), h.next_multiple_of(16));
        let layout = ImageLayout {
            offsets: [0, (pitch * rows) as u32, 0],
            pitches: [pitch as u32, pitch as u32, 0],
        };
        let mut image = vec![0u8; pitch * rows * 3 / 2];
        upload::upload_nv12(&mut image, &layout, upload.width, upload.height, nv12);
        let surface = self.surfaces.get_mut(&upload.surface.id).expect("the input surface");
        for y in 0..h {
            surface.data[y * w..][..w].copy_from_slice(&image[y * pitch..][..w]);
        }
        for y in 0..h / 2 {
            surface.data[w * h + y * w..][..w].copy_from_slice(&image[pitch * (rows + y)..][..w]);
        }
        let reply = if self.refuses.sync { Err(UploadError::Sync(failed())) } else { Ok(()) };
        encoder.uploaded(upload, reply)
    }

    fn encode_nv12(&mut self, encoder: &mut Encoder, nv12: &[u8], keyframe: bool) -> Result<Vec<u8>, EncodeError> {
        let submission = self.upload(encoder, nv12, keyframe)?;
        self.finish(encoder, submission)
    }

    /// Imports, converts where it has to, and returns the picture to encode.
    fn submit_dmabuf(&mut self, encoder: &mut Encoder, buffer: DmaBuf, keyframe: bool) -> Result<Submission, EncodeError> {
        let frame = encoder.encode_dmabuf(buffer, keyframe)?;
        let reply = self.import(&frame.import);
        let blit = match encoder.imported(frame, reply)? {
            FrameStep::Submit(submission) => return Ok(submission),
            FrameStep::Blit(blit) => blit,
            FrameStep::Probe(probing, waiting) => {
                let reply = if self.refuses.processor { Err(failed()) } else { Ok(VA_RT_FORMAT_YUV420) };
                let configuring = probing.answered(reply).map_err(EncodeError::Processor)?;
                let reply = Ok(self.id());
                encoder.processor_created(configuring, waiting, reply)?
            }
        };
        let run = match blit {
            Blit::Run(run) => run,
            Blit::Context(new) => {
                self.vpp_contexts += 1;
                let reply = Ok(self.id());
                encoder.context_created(new, reply)?
            }
        };
        let reply = self.blit(&run);
        encoder.blitted(&run, keyframe, reply)
    }

    fn encode_dmabuf(&mut self, encoder: &mut Encoder, buffer: DmaBuf, keyframe: bool) -> Result<Vec<u8>, EncodeError> {
        let submission = self.submit_dmabuf(encoder, buffer, keyframe)?;
        self.finish(encoder, submission)
    }

    fn set_bitrate(&mut self, encoder: &mut Encoder, bitrate: u32) -> Result<(), EncodeError> {
        match encoder.set_bitrate(bitrate)? {
            BitrateStep::Done => Ok(()),
            BitrateStep::Allocate(new) => {
                self.coded_sizes.push(new.size);
                let reply = if self.refuses.coded { Err(failed()) } else { Ok(self.id()) };
                encoder.coded_created(new, reply)
            }
        }
    }

    /// Stretches the input over the output by point sampling.
    fn blit(&mut self, run: &RunBlit) -> Result<(), PictureError> {
        if self.refuses.blit {
            return Err(PictureError::Render(failed()));
        }
        assert_eq!(run.parameters.surface, run.job.input.id);
        assert!(run.parameters.surface_region.is_none() && run.parameters.output_region.is_none());
        let source = self.surfaces[&run.job.input.id].clone();
        let target = self.surfaces.get_mut(&run.job.output.id).expect("the output surface");
        let (sw, sh) = (source.width as usize, source.height as usize);
        let (w, h) = (target.width as usize, target.height as usize);
        for y in 0..h {
            for x in 0..w {
                target.data[y * w + x] = source.data[y * sh / h * sw + x * sw / w];
            }
        }
        for y in 0..h / 2 {
            for x in 0..w {
                let at = (x / 2 * sw / w) * 2 + x % 2;
                target.data[w * h + y * w + x] = source.data[sw * sh + y * sh / h * sw + at];
            }
        }
        Ok(())
    }

    /// Runs a blit of `processor` to its end.
    fn run(&mut self, processor: &mut Processor, blit: Blit) -> Result<(), ProcessorError> {
        let run = match blit {
            Blit::Run(run) => run,
            Blit::Context(new) => {
                self.vpp_contexts += 1;
                let reply = Ok(self.id());
                processor.context_created(new, reply)?
            }
        };
        let reply = self.blit(&run);
        processor.blitted(&run, reply)
    }

    fn processor(&mut self, display: Display) -> Result<Processor, ProcessorError> {
        let configuring = Processor::with_display(display).answered(Ok(VA_RT_FORMAT_YUV420))?;
        assert_eq!(configuring.rt_format, VA_RT_FORMAT_YUV420);
        let config = self.id();
        configuring.created(Ok(config))
    }

    fn process(
        &mut self,
        processor: &mut Processor,
        input: &Surface,
        fourcc: u32,
        size: (u32, u32),
    ) -> Result<Surface, ProcessorError> {
        let allocation = processor.process(input, fourcc, size, None, None)?;
        let reply = self.create(processor.display(), allocation.request);
        let (output, blit) = processor.allocated(allocation, reply)?;
        self.run(processor, blit)?;
        Ok(output)
    }

    fn retile(&mut self, processor: &mut Processor, buffer: DmaBuf) -> Result<Surface, ProcessorError> {
        let retile = processor.retile(buffer)?;
        assert_eq!(retile.import.usage, USAGE_HINT_VPP_READ);
        let reply = self.import(&retile.import);
        let allocation = processor.retile_imported(retile, reply)?;
        let reply = self.create(processor.display(), allocation.request);
        let (output, blit) = processor.allocated(allocation, reply)?;
        self.run(processor, blit)?;
        Ok(output)
    }

    /// Exports a surface.
    fn export(&self, surface: &Surface) -> Exported {
        let pixels = &self.surfaces[&surface.id];
        Exported {
            fourcc: pixels.fourcc,
            width: pixels.width,
            height: pixels.height,
            modifiers: vec![pixels.modifier],
            num_planes: if pixels.fourcc == VA_FOURCC_NV12 { 2 } else { 1 },
        }
    }
}

/// A surface that was exported, with its objects by their modifiers.
struct Exported {
    fourcc: u32,
    width: u32,
    height: u32,
    modifiers: Vec<u64>,
    num_planes: u32,
}

fn rate_control(submission: &Submission) -> EncMiscParameterRateControl {
    let at = submission.buffers.len() - 2;
    match &submission.buffers[at] {
        BufferType::EncMiscParameter(EncMiscParameter::RateControl(rate)) => *rate,
        other => panic!("the buffer at {at} is {other:?}"),
    }
}

fn picture(submission: &Submission) -> &EncPictureParameterBufferH264 {
    match &submission.buffers[1] {
        BufferType::EncPictureParameter(picture) => picture,
        other => panic!("the second buffer is {other:?}"),
    }
}

fn slice(submission: &Submission) -> &EncSliceParameterBufferH264 {
    match &submission.buffers[2] {
        BufferType::EncSliceParameter(slice) => slice,
        other => panic!("the third buffer is {other:?}"),
    }
}

fn config() -> Config {
    Config::new(WIDTH, HEIGHT, 30, 2_000_000, 30)
}

/// A diagonal gradient with a block moving across it, so a stale or
/// misplaced reference shows up as the block in the wrong place.
fn nv12_frame(width: u32, height: u32, step: u32) -> Vec<u8> {
    let (w, h) = (width as usize, height as usize);
    let mut data = vec![128u8; w * h + w * h.div_ceil(2)];
    for y in 0..h {
        for x in 0..w {
            data[y * w + x] = (32 + (x + y) * 160 / (w + h)) as u8;
        }
    }
    let x0 = (step as usize * 8) % (w / 2);
    for y in h / 4..h / 2 {
        for x in x0..x0 + w / 4 {
            data[y * w + x] = 220;
        }
    }
    data
}

/// Returns the NAL unit types in an Annex-B access unit.
fn nal_types(unit: &[u8]) -> Vec<u8> {
    let mut types = Vec::new();
    let mut i = 0;
    while i + 3 < unit.len() {
        if unit[i..i + 3] == [0, 0, 1] {
            types.push(unit[i + 3] & 0x1f);
            i += 3;
        }
        i += 1;
    }
    types
}

/// An NV12 DMA-BUF.
fn nv12_dmabuf(width: u32, height: u32) -> DmaBuf {
    DmaBuf { drm_format: DRM_FORMAT_NV12, modifier: 0, width, height, color: None }
}

/// With no node named, the encoder opens one that encodes H.264 and records
/// which. A named node is used or refused, never swapped for another.
#[test]
fn the_render_node_is_found_or_named() {
    let mut driver = Driver::new();
    let encoder = driver.encoder(config()).expect("an encoder");
    let device = encoder.config().device.clone().expect("the picked node is recorded");
    let display = driver.open_node(&device).expect("reopen the picked node");
    probe(&driver.entrypoints(display, 6)).expect("the picked node encodes H.264");
    assert_eq!(device, PathBuf::from("/dev/dri/renderD129"));

    let named = Config { device: Some(PathBuf::from("/dev/null")), ..config() };
    assert!(
        driver.encoder(named).is_err(),
        "a named node that is not a render node was swapped for one that is"
    );
}

/// An IDR opens every group, and only there.
#[test]
fn keyframes_follow_the_group_length() {
    let mut driver = Driver::new();
    let mut encoder = driver.encoder(Config { gop: 10, ..config() }).expect("an encoder");
    for step in 0..25 {
        let unit = driver
            .encode_nv12(&mut encoder, &nv12_frame(WIDTH, HEIGHT, step), false)
            .expect("encode");
        let types = nal_types(&unit);
        let idr = types.contains(&5);
        assert_eq!(idr, step % 10 == 0, "frame {step} has NAL types {types:?}");
        if idr {
            assert!(
                types.contains(&7) && types.contains(&8),
                "an IDR carries its SPS and PPS"
            );
        }
    }
    // A forced keyframe restarts the count: the next IDR is a group later.
    for step in 0..=10 {
        let unit = driver
            .encode_nv12(&mut encoder, &nv12_frame(WIDTH, HEIGHT, step), step == 0)
            .expect("encode");
        assert_eq!(
            nal_types(&unit).contains(&5),
            step % 10 == 0,
            "frame {step} after the forced keyframe"
        );
    }
}

/// Lowering the bitrate mid-stream shrinks the pictures without an IDR.
#[test]
fn a_bitrate_change_takes_effect_without_a_keyframe() {
    let mut driver = Driver::new();
    let mut encoder = driver
        .encoder(Config::new(WIDTH, HEIGHT, 30, 2_000_000, 1_000))
        .expect("an encoder");
    // The moving block over light noise.
    let mut state = 0x2545_f491_u32;
    let mut frame = |step: u32| {
        let mut frame = nv12_frame(WIDTH, HEIGHT, step);
        for sample in &mut frame[..(WIDTH * HEIGHT) as usize] {
            state ^= state << 13;
            state ^= state >> 17;
            state ^= state << 5;
            *sample = sample.saturating_add((state >> 28) as u8);
        }
        frame
    };
    // The mean picture size over the second half of 60 frames, once the
    // rate controller has settled.
    // Also asserts that no picture after the first is an IDR.
    let mut average = |driver: &mut Driver, encoder: &mut Encoder, from: u32| {
        let sizes: Vec<usize> = (from..from + 60)
            .map(|step| {
                let unit = driver.encode_nv12(encoder, &frame(step), false).expect("encode");
                if step > 0 {
                    assert!(!nal_types(&unit).contains(&5), "picture {step} is an IDR");
                }
                unit.len()
            })
            .collect();
        sizes[30..].iter().sum::<usize>() / 30
    };

    let high = average(&mut driver, &mut encoder, 0);
    driver.set_bitrate(&mut encoder, 250_000).expect("set the bitrate");
    assert_eq!(encoder.config().bitrate, 250_000);
    assert!(driver.set_bitrate(&mut encoder, 0).is_err(), "a zero bitrate is refused");
    let low = average(&mut driver, &mut encoder, 60);
    println!("mean picture at 2 Mbps: {high} bytes, at 250 kbps: {low} bytes");
    assert!(
        low * 3 < high,
        "the rate did not drop: {high} -> {low} bytes per picture"
    );
}

/// A driver-allocated NV12 surface survives a round trip through the
/// post-processor, and the modifier the driver picked is printed.
#[test]
fn retile_round_trip() {
    let mut driver = Driver::new();
    let display = Display { handle: 129 };
    let mut processor = driver.processor(display).expect("a processor");

    // A decode-hinted surface, which is the allocation whose tiling is the
    // problem a re-tile exists for.
    let request = SurfaceRequest {
        rt_format: VA_RT_FORMAT_YUV420,
        fourcc: VA_FOURCC_NV12,
        width: 640,
        height: 480,
        usage: USAGE_HINT_DECODER | USAGE_HINT_EXPORT,
    };
    let mut surfaces =
        driver.create(processor.display(), request).expect("allocate a decode surface");
    let decoded = surfaces.pop().expect("one surface");
    let exported = driver.export(&decoded);
    assert_eq!(exported.modifiers.len(), 1, "a composed export is one object");
    let source_modifier = exported.modifiers[0];
    let (fourcc, size, planes) =
        (exported.fourcc, (exported.width, exported.height), exported.num_planes);
    let buffer = DmaBuf {
        drm_format: DRM_FORMAT_NV12,
        modifier: source_modifier,
        width: exported.width,
        height: exported.height,
        color: None,
    };

    let retiled = driver.retile(&mut processor, buffer).expect("re-tile the decode surface");
    let output = driver.export(&retiled);
    let target_modifier = output.modifiers[0];

    println!("modifier {source_modifier:#x} -> {target_modifier:#x}");
    assert_eq!(output.fourcc, fourcc, "the blit preserves the pixel format");
    assert_eq!((output.width, output.height), size);
    assert_eq!(output.modifiers.len(), 1, "a composed export is one object");
    assert_eq!(output.num_planes, planes, "the blit preserves the plane count");
    assert_eq!(
        driver.surfaces[&retiled.id].usage,
        USAGE_HINT_VPP_WRITE | USAGE_HINT_EXPORT
    );
}

/// A surface scaled by the processor exports and reads back at its new
/// size, with the picture scaled rather than cropped.
#[test]
fn a_scaled_surface_reads_back_at_its_new_size() {
    let mut driver = Driver::new();
    let mut processor = driver.processor(Display { handle: 129 }).expect("a processor");

    // Left half dark, right half bright, so a crop and a scale differ.
    let (width, height) = (640u32, 480u32);
    let request = SurfaceRequest {
        rt_format: VA_RT_FORMAT_YUV420,
        fourcc: VA_FOURCC_NV12,
        width,
        height,
        usage: USAGE_HINT_EXPORT,
    };
    let source = driver
        .create(processor.display(), request)
        .expect("allocate a surface")
        .pop()
        .expect("one surface");
    {
        let data = &mut driver.surfaces.get_mut(&source.id).expect("create an image").data;
        for y in 0..height as usize {
            let row = y * width as usize;
            for x in 0..width as usize {
                data[row + x] = if x < width as usize / 2 { 40 } else { 200 };
            }
        }
        for y in 0..height as usize / 2 {
            let row = (height as usize + y) * width as usize;
            data[row..row + width as usize].fill(128);
        }
    }

    let scaled = driver
        .process(&mut processor, &source, VA_FOURCC_NV12, (width / 2, height / 2))
        .expect("scale the surface");
    let pixels = &driver.surfaces[&scaled.id];
    let exported =
        ExportedFrame::from_surface(scaled, 7, Ok(())).expect("export the scaled surface");
    assert_eq!(exported.surface, scaled);
    assert_eq!(ExportedFrame::from_surface(scaled, 7, Err(failed())), Err(failed()));
    assert_eq!((exported.width, exported.height), (width / 2, height / 2));
    assert_eq!(exported.timestamp, 7);
    let (w, h) = ((width / 2) as usize, (height / 2) as usize);
    assert_eq!(pixels.data.len(), w * h * 3 / 2);
    let (left, right) = (pixels.data[h / 2 * w + w / 8], pixels.data[h / 2 * w + w * 7 / 8]);
    assert!(
        left.abs_diff(40) < 4 && right.abs_diff(200) < 4,
        "read back {left} and {right}"
    );
    assert_eq!(pixels.data[w * h], 128);
}

/// The buffers of an IDR and of the frames behind it.
#[test]
fn the_buffers_of_a_group() {
    let mut driver = Driver::new();
    let mut encoder = driver.encoder(config()).expect("an encoder");
    let frame = nv12_frame(WIDTH, HEIGHT, 0);

    let first = driver.upload(&mut encoder, &frame, false).expect("the first frame");
    assert!(first.idr);
    assert_eq!(first.timestamp, 0);
    assert_eq!(first.buffers.len(), 9);
    let BufferType::EncSequenceParameter(sequence) = &first.buffers[0] else {
        panic!("the first buffer is {:?}", first.buffers[0]);
    };
    assert_eq!(sequence.level_idc, 40);
    assert_eq!((sequence.intra_period, sequence.intra_idr_period), (2048, 2048));
    assert_eq!(sequence.ip_period, 0);
    assert_eq!(sequence.bits_per_second, 2_000_000);
    assert_eq!(sequence.max_num_ref_frames, 1);
    assert_eq!((sequence.picture_width_in_mbs, sequence.picture_height_in_mbs), (20, 15));
    assert_eq!(sequence.seq_fields.log2_max_frame_num_minus4, 7);
    assert_eq!(sequence.seq_fields.log2_max_pic_order_cnt_lsb_minus4, 8);
    assert!(sequence.seq_fields.frame_mbs_only_flag && sequence.seq_fields.direct_8x8_inference_flag);
    assert!(sequence.frame_crop.is_none());
    assert_eq!(sequence.time_scale, 60);
    assert_eq!(sequence.vui_fields.expect("usability").aspect_ratio_info_present_flag, 1);
    assert_eq!(sequence.offset_for_ref_frame, [0; 256]);

    let target = picture(&first).curr_pic;
    assert_eq!((target.frame_idx, target.top_field_order_cnt), (0, 0));
    assert_eq!(picture(&first).coded_buf, first.coded);
    assert!(picture(&first).pic_fields.idr_pic_flag);
    assert_eq!(picture(&first).pic_init_qp, 26);
    assert!(picture(&first).reference_frames.iter().all(|p| p.picture_id == VA_INVALID_ID));
    assert_eq!(slice(&first).slice_type, 2);
    assert_eq!(slice(&first).num_macroblocks, 300);
    assert!(slice(&first).ref_pic_list_0.iter().all(|p| p.picture_id == VA_INVALID_ID));

    for (at, kind) in [(3, EncPackedHeaderType::Sequence), (5, EncPackedHeaderType::Picture)] {
        let (BufferType::EncPackedHeaderParameter(param), BufferType::EncPackedHeaderData(data)) =
            (&first.buffers[at], &first.buffers[at + 1])
        else {
            panic!("no packed header at {at}");
        };
        assert_eq!(param.kind, kind);
        assert_eq!(param.bit_length as usize, data.len() * 8);
        assert!(param.has_emulation_bytes);
        assert_eq!(&data[..4], &[0, 0, 0, 1]);
    }

    let rate = rate_control(&first);
    assert_eq!(rate.bits_per_second, 2_000_000);
    assert_eq!((rate.target_percentage, rate.window_size), (100, 1_500));
    assert_eq!((rate.initial_qp, rate.min_qp, rate.max_qp), (27, 18, 36));
    assert!(!rate.rc_flags.reset && rate.rc_flags.disable_frame_skip);
    let BufferType::EncMiscParameter(EncMiscParameter::FrameRate(frame_rate)) = &first.buffers[8]
    else {
        panic!("the last buffer is {:?}", first.buffers[8]);
    };
    assert_eq!((frame_rate.framerate, frame_rate.framerate_flags), (30, 0));
    driver.finish(&mut encoder, first).expect("encode");

    let mut before = target;
    for step in 1..5 {
        let next = driver.upload(&mut encoder, &frame, false).expect("a frame");
        assert!(!next.idr);
        assert_eq!(next.buffers.len(), 5);
        assert_eq!(next.timestamp, step);
        let current = picture(&next).curr_pic;
        assert_eq!(current.frame_idx, step as u32);
        assert_eq!(current.top_field_order_cnt, 2 * step as i32);
        assert_ne!(current.picture_id, before.picture_id);
        assert_eq!(picture(&next).reference_frames[0], before);
        assert_eq!(slice(&next).ref_pic_list_0[0], before);
        assert_eq!(slice(&next).ref_pic_list_0[1].picture_id, VA_INVALID_ID);
        assert_eq!(slice(&next).ref_pic_list_1[0].picture_id, VA_INVALID_ID);
        assert_eq!(slice(&next).slice_type, 0);
        assert_eq!(slice(&next).pic_order_cnt_lsb, 2 * step as u16);
        before = current;
        driver.finish(&mut encoder, next).expect("encode");
    }
}

/// The frame number wraps at its limit, and the order count in the slice
/// header at twice that.
#[test]
fn the_numbers_wrap_at_their_limits() {
    let mut driver = Driver::new();
    let mut encoder =
        driver.encoder(Config { width: 16, height: 16, gop: 5_000, ..config() }).expect("an encoder");
    let frame = nv12_frame(16, 16, 0);
    for step in 0..4_100u32 {
        let next = driver.upload(&mut encoder, &frame, false).expect("a frame");
        assert_eq!(picture(&next).frame_num as u32, step % 2048);
        assert_eq!(slice(&next).pic_order_cnt_lsb as u32, 2 * step % 4096);
        assert_eq!(picture(&next).curr_pic.top_field_order_cnt, 2 * step as i32);
        driver.finish(&mut encoder, next).expect("encode");
    }
}

/// Bytes behind those of a frame do not get anywhere.
#[test]
fn bytes_behind_a_frame_do_not_matter() {
    let mut driver = Driver::new();
    let mut encoder = driver.encoder(config()).expect("an encoder");
    let mut frame = nv12_frame(WIDTH, HEIGHT, 3);
    let first = driver.upload(&mut encoder, &frame, true).expect("a frame");
    let exact = driver.surfaces[&first.source.id].data.clone();
    frame.extend([0xab; 100]);
    let second = driver.upload(&mut encoder, &frame, true).expect("a frame");
    assert_eq!(driver.surfaces[&second.source.id].data, exact);
    assert_eq!(second.source, first.source);
}

/// A changed rate stays, and the reset goes out with one frame that is encoded.
#[test]
fn a_changed_rate_stays_and_is_reset_once() {
    let mut driver = Driver::new();
    let mut encoder = driver.encoder(Config { gop: 10, ..config() }).expect("an encoder");
    let frame = nv12_frame(WIDTH, HEIGHT, 0);
    driver.encode_nv12(&mut encoder, &frame, false).expect("encode");
    driver.set_bitrate(&mut encoder, 250_000).expect("set the bitrate");
    // A frame that fails still owes the reset.
    driver.refuses.picture = true;
    driver.encode_nv12(&mut encoder, &frame, false).expect_err("refused");
    driver.refuses.picture = false;
    for step in 1..25u32 {
        let next = driver.upload(&mut encoder, &frame, step == 15).expect("a frame");
        assert_eq!(next.idr, step == 10 || step == 15);
        let rate = rate_control(&next);
        assert_eq!((rate.bits_per_second, rate.window_size), (250_000, 1_500));
        assert_eq!(rate.rc_flags.reset, step == 1);
        assert!(rate.rc_flags.disable_frame_skip);
        driver.finish(&mut encoder, next).expect("encode");
    }
}

/// A frame that fails is made up for by the next.
#[test]
fn a_failed_idr_is_tried_again() {
    let mut driver = Driver::new();
    let mut encoder = driver.encoder(config()).expect("an encoder");
    let frame = nv12_frame(WIDTH, HEIGHT, 0);
    driver.encode_nv12(&mut encoder, &frame, false).expect("encode");
    driver.refuses.picture = true;
    assert_eq!(
        driver.encode_nv12(&mut encoder, &frame, true),
        Err(EncodeError::Picture(PictureError::Sync(failed())))
    );
    driver.refuses.picture = false;
    let unit = driver.encode_nv12(&mut encoder, &frame, false).expect("encode");
    assert_eq!(nal_types(&unit), vec![7, 8, 5]);
    driver.refuses.map = true;
    assert_eq!(
        driver.encode_nv12(&mut encoder, &frame, false),
        Err(EncodeError::ReadCoded(failed()))
    );
    driver.refuses.map = false;
    let unit = driver.encode_nv12(&mut encoder, &frame, false).expect("encode");
    assert_eq!(nal_types(&unit), vec![1]);
}

/// What keeps pixels from a surface leaves the encoder as it was.
#[test]
fn an_upload_can_fail() {
    let mut driver = Driver::new();
    let mut encoder = driver.encoder(config()).expect("an encoder");
    let frame = nv12_frame(WIDTH, HEIGHT, 0);
    assert_eq!(
        driver.encode_nv12(&mut encoder, &frame[1..], false),
        Err(EncodeError::ShortFrame {
            length: 115_199,
            width: WIDTH,
            height: HEIGHT,
            expected: 115_200,
        })
    );
    driver.refuses.formats = true;
    assert_eq!(
        driver.encode_nv12(&mut encoder, &frame, false),
        Err(EncodeError::Upload(UploadError::NoFormat))
    );
    driver.refuses.formats = false;
    driver.refuses.sync = true;
    assert_eq!(
        driver.encode_nv12(&mut encoder, &frame, false),
        Err(EncodeError::Upload(UploadError::Sync(failed())))
    );
    driver.refuses.sync = false;
    let unit = driver.encode_nv12(&mut encoder, &frame, false).expect("encode");
    assert_eq!(nal_types(&unit), vec![7, 8, 5]);
}

/// The driver's image formats may not be known.
#[test]
fn the_image_formats_may_be_refused() {
    let mut driver = Driver::new();
    let encoder = driver.encoder(config()).expect("an encoder");
    let upload = encoder.encode_nv12(&nv12_frame(WIDTH, HEIGHT, 0), false).expect("an upload");
    assert_eq!(upload.format(&Err(failed())), Err(UploadError::Formats(failed())));
    assert_eq!(
        upload.format(&Ok(vec![VA_FOURCC_NV12, VA_FOURCC_NV12])),
        Ok(0),
        "the first NV12 is taken"
    );
}

/// A buffer the driver refuses leaves the encoder usable, so the caller's
/// CPU fallback can encode the same frame.
#[test]
fn a_refused_import_leaves_the_encoder_as_it_was() {
    let mut driver = Driver::new();
    let mut encoder = driver.encoder(config()).expect("an encoder");
    // A format with no mapping, and a real buffer under a modifier no driver has.
    let unmapped = DmaBuf { drm_format: u32::from_le_bytes(*b"ZZZZ"), ..nv12_dmabuf(WIDTH, HEIGHT) };
    assert_eq!(
        driver.encode_dmabuf(&mut encoder, unmapped, true),
        Err(EncodeError::NoFormat { drm_format: 0x5a5a_5a5a })
    );
    let unknown = DmaBuf { modifier: 0x00ff_ffff_ffff_fffe, ..nv12_dmabuf(WIDTH, HEIGHT) };
    assert_eq!(
        driver.encode_dmabuf(&mut encoder, unknown, true),
        Err(EncodeError::Import(ImportError::Refused(failed())))
    );
    let unit = driver
        .encode_nv12(&mut encoder, &nv12_frame(WIDTH, HEIGHT, 0), true)
        .expect("the CPU path still encodes");
    assert_eq!(nal_types(&unit), vec![7, 8, 5]);
}

/// NV12 at the encoder's size and in its color is encoded from where it is.
#[test]
fn an_nv12_dmabuf_is_encoded_in_place() {
    let mut driver = Driver::new();
    let mut encoder = driver.encoder(config()).expect("an encoder");
    for color in [None, Some(Color::bt601())] {
        let buffer = DmaBuf { color, ..nv12_dmabuf(WIDTH, HEIGHT) };
        let frame = encoder.encode_dmabuf(buffer, false).expect("a frame");
        assert!(frame.conversion.is_none());
        assert_eq!(frame.import.usage, USAGE_HINT_ENCODER);
        let submission = driver.submit_dmabuf(&mut encoder, buffer, false).expect("a frame");
        assert_eq!(driver.surfaces[&submission.source.id].usage, USAGE_HINT_ENCODER);
        driver.finish(&mut encoder, submission).expect("encode the DMA-BUF");
    }
    assert_eq!(driver.vpp_contexts, 0);
}

/// Everything else goes through the video processor, which is opened once.
#[test]
fn any_other_dmabuf_is_blitted() {
    let mut driver = Driver::new();
    let mut encoder = driver.encoder(config()).expect("an encoder");
    let bt709 = Some(Color::bt709());
    let bt601 = Some(Color::bt601());
    let buffers = [
        // In another space: converted, not relabelled.
        (DmaBuf { color: bt709, ..nv12_dmabuf(WIDTH, HEIGHT) }, bt709),
        // At another size, in the stream's space as far as is known.
        (nv12_dmabuf(WIDTH * 2, HEIGHT * 2), bt601),
        // RGB has no space of its own.
        (DmaBuf { drm_format: DRM_FORMAT_XRGB8888, ..nv12_dmabuf(WIDTH, HEIGHT) }, None),
    ];
    for (buffer, space) in buffers {
        let frame = encoder.encode_dmabuf(buffer, false).expect("a frame");
        assert_eq!(frame.import.usage, USAGE_HINT_VPP_READ);
        assert_eq!(frame.conversion.expect("a conversion").input_color, space);
        driver.encode_dmabuf(&mut encoder, buffer, false).expect("encode the DMA-BUF");
    }
    assert_eq!(driver.vpp_contexts, 1, "one context for the encoder's size");

    // A blit that fails drops its context, and the next one gets another.
    driver.refuses.blit = true;
    assert_eq!(
        driver.encode_dmabuf(&mut encoder, nv12_dmabuf(16, 16), false),
        Err(EncodeError::Processor(ProcessorError::Blit(PictureError::Render(failed()))))
    );
    driver.refuses.blit = false;
    driver.encode_dmabuf(&mut encoder, nv12_dmabuf(16, 16), false).expect("encode the DMA-BUF");
    assert_eq!(driver.vpp_contexts, 2);
}

/// A 1080-row buffer is not encoded in place: the encoder reads 1088 rows,
/// so it goes through the video processor into the padded input surface.
#[test]
fn a_buffer_short_of_whole_macroblocks_is_not_encoded_in_place() {
    let (width, height) = (1920, 1080);
    let mut driver = Driver::new();
    let encoder =
        driver.encoder(Config::new(width, height, 30, 4_000_000, 30)).expect("an encoder");
    let frame = encoder.encode_dmabuf(nv12_dmabuf(width, height), true).expect("a frame");
    let color = frame.conversion.expect("a conversion").input_color;
    assert_eq!(color, Some(Color::bt709()));
}

/// A device without a video processor encodes what needs none.
#[test]
fn a_missing_video_processor_is_found_out_when_needed() {
    let mut driver = Driver::new();
    driver.refuses.processor = true;
    let mut encoder = driver.encoder(config()).expect("an encoder");
    assert_eq!(
        driver.encode_dmabuf(&mut encoder, nv12_dmabuf(16, 16), false),
        Err(EncodeError::Processor(ProcessorError::Attributes(failed())))
    );
    driver
        .encode_dmabuf(&mut encoder, nv12_dmabuf(WIDTH, HEIGHT), false)
        .expect("encode the DMA-BUF");
}

/// A frame converted by the video processor arrives in the encoder's surface.
#[test]
fn a_converted_frame_is_encoded_from_the_input_surface() {
    let mut driver = Driver::new();
    let mut encoder = driver.encoder(config()).expect("an encoder");
    let uploaded = encoder.encode_nv12(&nv12_frame(WIDTH, HEIGHT, 0), false).expect("an upload");
    let submission =
        driver.submit_dmabuf(&mut encoder, nv12_dmabuf(64, 64), false).expect("a frame");
    assert_eq!(submission.source, uploaded.surface);
}

/// A higher rate asks for a larger coded buffer, and a refused one leaves the
/// old rate.
#[test]
fn a_higher_rate_takes_a_larger_buffer() {
    let mut driver = Driver::new();
    let mut encoder = driver.encoder(config()).expect("an encoder");
    assert_eq!(driver.coded_sizes, vec![1_500_000]);
    driver.refuses.coded = true;
    assert_eq!(
        driver.set_bitrate(&mut encoder, 8_000_000),
        Err(EncodeError::Coded(failed()))
    );
    assert_eq!(encoder.config().bitrate, 2_000_000);
    driver.refuses.coded = false;
    driver.set_bitrate(&mut encoder, 8_000_000).expect("set the bitrate");
    assert_eq!(encoder.config().bitrate, 8_000_000);
    assert_eq!(driver.coded_sizes, vec![1_500_000, 2_000_000, 2_000_000]);
    // The lower rate fits.
    driver.set_bitrate(&mut encoder, 7_000_000).expect("set the bitrate");
    assert_eq!(driver.coded_sizes.len(), 3);
    assert_eq!(driver.set_bitrate(&mut encoder, 0), Err(EncodeError::ZeroBitrate));

    let frame = nv12_frame(WIDTH, HEIGHT, 0);
    let first = driver.upload(&mut encoder, &frame, false).expect("a frame");
    assert!(rate_control(&first).rc_flags.reset);
    assert_eq!(rate_control(&first).bits_per_second, 7_000_000);
    driver.finish(&mut encoder, first).expect("encode");
    driver.set_bitrate(&mut encoder, 7_000_000).expect("set the bitrate");
    let second = driver.upload(&mut encoder, &frame, false).expect("a frame");
    assert!(!rate_control(&second).rc_flags.reset, "the same rate resets nothing");
}

/// Each step of opening an encoder can fail.
#[test]
fn opening_fails_where_the_driver_refuses() {
    let named = |node: &str| Config { device: Some(PathBuf::from(node)), ..config() };
    let mut driver = Driver::new();
    assert_eq!(
        driver.encoder(named("/dev/null")).err(),
        Some(SetupError::Open(OpenDrmDisplayError::DeviceOpen))
    );
    assert_eq!(
        driver.encoder(named("/dev/dri/renderD131")).err(),
        Some(SetupError::Open(OpenDrmDisplayError::VaInitialize(failed())))
    );
    assert_eq!(
        driver.encoder(named("/dev/dri/renderD128")).err(),
        Some(SetupError::Entrypoint(ProbeError::NoEntrypoint)),
        "a named node that does not encode is not swapped for one that does"
    );
    driver.refuses.config = true;
    assert_eq!(driver.encoder(config()).err(), Some(SetupError::Config(failed())));
    driver.refuses = Refusals { context: true, ..Refusals::default() };
    assert_eq!(driver.encoder(config()).err(), Some(SetupError::Context(failed())));
    driver.refuses = Refusals { coded: true, ..Refusals::default() };
    assert_eq!(driver.encoder(config()).err(), Some(SetupError::Coded(failed())));
    driver.refuses = Refusals { surface: true, ..Refusals::default() };
    assert_eq!(driver.encoder(config()).err(), Some(SetupError::Surface(failed())));
    driver.refuses = Refusals { no_surface: true, ..Refusals::default() };
    assert_eq!(driver.encoder(config()).err(), Some(SetupError::NoSurface));

    let Opening::Unnamed(find) = Encoder::new(config()) else {
        panic!("no node is named");
    };
    assert_eq!(find.listed(vec![]).err(), Some(SetupError::NoNode));
    let Opening::Unnamed(find) = Encoder::new(config()) else {
        panic!("no node is named");
    };
    let Ok(Tried::Next(node)) = find.listed(vec![PathBuf::from("/dev/dri/renderD128")]) else {
        panic!("there is a node to try");
    };
    let reply = driver.try_node(&node.search.node, node.search.need.profile());
    assert_eq!(node.answered(reply).err(), Some(SetupError::NoNode));
}

/// A driver that takes no packed headers is not asked for them.
#[test]
fn packed_headers_are_asked_for_where_the_driver_takes_them() {
    for (reply, asked) in [
        (Err(failed()), None),
        (Ok(0x8000_0000), None),
        (Ok(0), None),
        (Ok(0x1c), None),
        (Ok(0x1d), Some(1)),
        (Ok(0x1f), Some(3)),
    ] {
        let mut driver = Driver::new();
        let named = Config { device: Some(PathBuf::from("/dev/dri/renderD129")), ..config() };
        let Opening::Named(node) = Encoder::new(named) else {
            panic!("the node is named");
        };
        let display = driver.open_node(&node.device);
        let target = node.opened(display).expect("a display");
        let entrypoints = driver.entrypoints(target.target.display, 6);
        let headers = target.answered(entrypoints).expect("an entrypoint");
        let attributes = headers.answered(reply).attributes;
        let packed: Option<u32> = attributes
            .iter()
            .find(|a| a.kind == VA_CONFIG_ATTRIB_ENC_PACKED_HEADERS)
            .map(|a| a.value);
        assert_eq!(packed, asked);
        assert_eq!(attributes.len(), if asked.is_some() { 3 } else { 2 });
    }
}

/// Surfaces of another display are refused.
#[test]
fn a_blit_stays_on_its_display() {
    let mut driver = Driver::new();
    let processor = driver.processor(Display { handle: 129 }).expect("a processor");
    let own = Surface { id: 1, display: Display { handle: 129 }, width: 16, height: 16 };
    let other = Surface { display: Display { handle: 128 }, ..own };
    assert_eq!(
        processor.blit(&own, &other, None, None).err(),
        Some(ProcessorError::OtherDisplay)
    );
    assert_eq!(
        processor.blit(&other, &own, None, None).err(),
        Some(ProcessorError::OtherDisplay)
    );
    assert!(processor.blit(&own, &own, None, None).is_ok());
}

/// A context serves every blit of its size.
#[test]
fn contexts_are_kept_by_size() {
    let mut driver = Driver::new();
    let mut processor = driver.processor(Display { handle: 129 }).expect("a processor");
    let request = SurfaceRequest {
        rt_format: VA_RT_FORMAT_YUV420,
        fourcc: VA_FOURCC_NV12,
        width: 64,
        height: 32,
        usage: 0,
    };
    let source = driver.create(processor.display(), request).expect("a surface")[0];
    for (size, contexts) in [((64, 32), 1), ((32, 64), 2), ((64, 32), 2), ((32, 64), 2)] {
        driver
            .process(&mut processor, &source, VA_FOURCC_NV12, size)
            .expect("scale the surface");
        assert_eq!(driver.vpp_contexts, contexts, "after {size:?}");
    }
}

/// Each step of post-processing can fail.
#[test]
fn processing_fails_where_the_driver_refuses() {
    let mut driver = Driver::new();
    let display = Display { handle: 129 };
    assert_eq!(
        Processor::new(PathBuf::from("/dev/null"))
            .opened(Err(OpenDrmDisplayError::NoLibrary))
            .err(),
        Some(ProcessorError::Open(OpenDrmDisplayError::NoLibrary))
    );
    assert_eq!(
        Processor::with_display(display).answered(Err(failed())).err(),
        Some(ProcessorError::Attributes(failed()))
    );
    let configuring = Processor::with_display(display).answered(Ok(1)).expect("attributes");
    assert_eq!(configuring.created(Err(failed())).err(), Some(ProcessorError::Config(failed())));

    let mut processor = driver.processor(display).expect("a processor");
    let own = Surface { id: 1, display, width: 16, height: 16 };
    assert_eq!(
        processor.process(&own, u32::from_le_bytes(*b"I420"), (16, 16), None, None).err(),
        Some(ProcessorError::NoTargetFormat { fourcc: u32::from_le_bytes(*b"I420") })
    );
    let allocation = processor
        .process(&own, VA_FOURCC_BGRX, (8, 4), None, Some(Color::bt709()))
        .expect("an allocation");
    assert_eq!(allocation.request.rt_format, VA_RT_FORMAT_RGB32);
    assert_eq!(
        processor.allocated(allocation, Err(failed())).err(),
        Some(ProcessorError::Allocate { width: 8, height: 4, error: failed() })
    );
    assert_eq!(
        processor.allocated(allocation, Ok(vec![])).err(),
        Some(ProcessorError::NoSurface)
    );
    let unmapped = DmaBuf { drm_format: u32::from_le_bytes(*b"ZZZZ"), ..nv12_dmabuf(16, 16) };
    assert_eq!(
        processor.retile(unmapped).err(),
        Some(ProcessorError::NoFormat { drm_format: 0x5a5a_5a5a })
    );
    let retile = processor.retile(nv12_dmabuf(16, 16)).expect("a re-tile");
    assert_eq!(
        processor.retile_imported(retile, Err(ImportError::NoSurface)).err(),
        Some(ProcessorError::Import(ImportError::NoSurface))
    );
    let Ok(Blit::Context(new)) = processor.blit(&own, &own, None, None) else {
        panic!("there is no context yet");
    };
    assert_eq!(
        processor.context_created(new, Err(failed())).err(),
        Some(ProcessorError::Context { width: 16, height: 16, error: failed() })
    );
}

/// The first node that post-processes is opened.
#[test]
fn the_first_node_that_processes_is_found() {
    let mut driver = Driver::new();
    assert_eq!(Processor::open(vec![]).err(), Some(ProcessorError::NoNode));
    let mut finding = Processor::open(Driver::nodes()).expect("nodes");
    let mut tried = Vec::new();
    let probing = loop {
        match finding {
            Finding::Try(search) => {
                assert_eq!(search.need.profile(), -1);
                tried.push(search.node.clone());
                let reply = driver.try_node(&search.node, search.need.profile());
                finding = Finding::tried(search, reply).expect("a node that will do");
            }
            Finding::Found(probing) => break probing,
        }
    };
    assert_eq!(probing.display, Display { handle: 129 });
    assert_eq!(tried, Driver::nodes()[..3].to_vec());
}

/// Each side of a blit says what is known of its color.
#[test]
fn a_pipeline_names_the_colors() {
    let own = Surface { id: 7, display: Display { handle: 1 }, width: 16, height: 16 };
    let full = Color { full_range: true, ..Color::bt709() };
    let parameters = moq_vaapi::vpp::pipeline(own.id, None, Some(full));
    assert_eq!(parameters.surface, 7);
    assert_eq!(parameters.surface_color_standard, 0);
    assert_eq!(parameters.input_color_properties.color_range, 0);
    assert_eq!(parameters.output_color_standard, 2);
    assert_eq!(parameters.output_color_properties.color_range, 2);
    let parameters = moq_vaapi::vpp::pipeline(own.id, Some(Color::bt601()), None);
    assert_eq!(parameters.surface_color_standard, 1);
    assert_eq!(parameters.input_color_properties.color_range, 1);
    assert_eq!(parameters.output_color_standard, 0);
    assert!(parameters.filters.is_none() && parameters.forward_references.is_none());
    assert_eq!((parameters.rotation_state, parameters.mirror_state), (0, 0));
}
