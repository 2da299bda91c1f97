//! The H.264 encoder.
//!
//! Low-latency only: IPPP (no B-frames), one reference frame.
//!
//! Three ways in, cheapest first:
//! - [`Encoder::encode_dmabuf`] with an NV12 DMA-BUF at the encoder's size
//!   encodes the producer's memory in place.
//! - [`Encoder::encode_dmabuf`] with any other importable DMA-BUF (packed RGB
//!   from a screen capture, YUYV from a camera, NV12 at another size) converts
//!   and scales it into the encoder's own surface with the video processor, on
//!   the GPU.
//! - [`Encoder::encode_nv12`] uploads CPU pixels.
//!
//! An [`Encoder`] decides what to ask of the driver next. Each of its
//! functions either is done, or hands out what to ask, which the function
//! named after the answer takes back together with it. A frame ends with a
//! [`Submission`], whose answer [`Encoder::submitted`] takes.

pub mod groups;
pub mod operations;
pub mod params;
pub mod promises;
pub mod sessions;
pub mod setup;
pub mod stream;
pub mod told;
pub mod upload;
pub mod wire;

use std::path::PathBuf;
use std::rc::Rc;

use vstd::prelude::*;

use crate::bindings::USAGE_HINT_ENCODER;
use crate::bindings::USAGE_HINT_VPP_READ;
use crate::bindings::VA_ATTRIB_NOT_SUPPORTED;
use crate::bindings::VA_ENC_PACKED_HEADER_PICTURE;
use crate::bindings::VA_ENC_PACKED_HEADER_SEQUENCE;
use crate::bindings::VA_ENTRYPOINT_ENC_SLICE;
use crate::bindings::VA_ENTRYPOINT_ENC_SLICE_LP;
use crate::bindings::VA_FOURCC_ARGB;
use crate::bindings::VA_FOURCC_BGRA;
use crate::bindings::VA_FOURCC_BGRX;
use crate::bindings::VA_FOURCC_NV12;
use crate::bindings::VA_FOURCC_RGBA;
use crate::bindings::VA_FOURCC_RGBX;
use crate::bindings::VA_FOURCC_XRGB;
use crate::bindings::VA_RT_FORMAT_YUV420;
use crate::buffer::BufferType;
use crate::buffer::EncMiscParameter;
use crate::buffer::EncMiscParameterFrameRate;
use crate::buffer::EncPackedHeaderParameter;
use crate::buffer::EncPackedHeaderType;
use crate::codec::h264::parser::NaluType;
use crate::codec::h264::parser::Pps;
use crate::codec::h264::parser::SliceHeader;
use crate::codec::h264::parser::SliceHeaderBuilder;
use crate::codec::h264::parser::SliceType;
use crate::codec::h264::syntax;
use crate::codec::h264::syntax::Element;
use crate::color::Color;
use crate::display;
use crate::display::Display;
use crate::display::Import;
use crate::display::Need;
use crate::display::PictureError;
use crate::display::ProbeError;
use crate::display::Surface;
use crate::display::SurfaceRequest;
use crate::dmabuf;
use crate::dmabuf::DmaBuf;
use crate::dmabuf::ImportError;
use crate::vpp;
use crate::vpp::Blit;
use crate::vpp::NewContext;
use crate::vpp::Processor;
use crate::vpp::ProcessorError;
use crate::vpp::ProcessorState;
use crate::vpp::RunBlit;
use crate::VaError;

verus! {

/// Whether a frame is used as a reference, and for how long.
#[derive(Copy, Clone, PartialEq, Eq, Debug, Structural)]
pub enum IsReference {
    No,
    ShortTerm,
    LongTerm,
}

/// The lowest quantizer.
///
/// With the full H.264 range, a constant bitrate controller can spend too
/// much of a group on its IDR and then raise the P-frame quantizer enough to
/// produce a visible quality pulse. These bounds trade strict constant
/// bitrate at the extremes for stable picture quality.
pub const MIN_QP: u8 = 18;

/// The highest quantizer.
pub const MAX_QP: u8 = 36;

/// Window over which the driver's rate controller targets the configured bitrate.
pub const RATE_CONTROL_WINDOW_MS: u32 = 1_500;

/// The frame numbers are counted modulo this.
pub const LIMIT: u32 = 2048;

/// H.264 encoder configuration. Dimensions must be even (4:2:0 chroma).
#[derive(Clone, Debug)]
pub struct Config {
    pub width: u32,
    pub height: u32,
    pub framerate: u32,
    /// Target bitrate in bits per second (CBR).
    pub bitrate: u32,
    /// Keyframe interval in frames.
    pub gop: u32,
    /// DRM render node to open (e.g. `/dev/dri/renderD128`).
    ///
    /// `None`, the default, opens the first node whose driver can encode H.264,
    /// and [`Encoder::config`] then names the node it picked.
    pub device: Option<PathBuf>,
    /// Color space written into the SPS, and the target of a conversion from RGB.
    ///
    /// Defaults to [`Color::infer`] for the height, which is what a decoder
    /// assumes for an unlabelled stream.
    pub color: Color,
}

impl Config {
    /// Returns a configuration that leaves the device open and infers the color.
    pub fn new(width: u32, height: u32, framerate: u32, bitrate: u32, gop: u32) -> (r: Self)
        ensures
            r == (Config {
                width,
                height,
                framerate,
                bitrate,
                gop,
                device: None,
                color: Color::inferred(height as int),
            }),
    {
        Self { width, height, framerate, bitrate, gop, device: None, color: Color::infer(height) }
    }
}

/// Per-frame reference metadata.
#[derive(Copy, Clone, Debug, PartialEq, Eq, Structural)]
pub struct FrameMeta {
    /// The picture order count.
    pub poc: u32,
    pub frame_num: u32,
}

/// The entrypoint to encode with, out of those that a driver offers for H.264
/// Main: the full one where it is there, and else the low-power one.
pub open spec fn best_entrypoint(offered: Seq<u32>) -> Option<u32> {
    if offered.contains(VA_ENTRYPOINT_ENC_SLICE) {
        Some(VA_ENTRYPOINT_ENC_SLICE)
    } else if offered.contains(VA_ENTRYPOINT_ENC_SLICE_LP) {
        Some(VA_ENTRYPOINT_ENC_SLICE_LP)
    } else {
        None
    }
}

/// Returns the encode entrypoint to use out of those a device offers: the full one when present.
pub fn pick_entrypoint(offered: &[u32]) -> (r: Option<u32>)
    ensures
        r == best_entrypoint(offered@),
{
    if display::offers(offered, VA_ENTRYPOINT_ENC_SLICE) {
        Some(VA_ENTRYPOINT_ENC_SLICE)
    } else if display::offers(offered, VA_ENTRYPOINT_ENC_SLICE_LP) {
        Some(VA_ENTRYPOINT_ENC_SLICE_LP)
    } else {
        None
    }
}

/// The entrypoint to encode with, or why there is none.
pub open spec fn entrypoint_for(entrypoints: Result<Vec<u32>, VaError>) -> Result<
    u32,
    ProbeError,
> {
    match entrypoints {
        Err(err) => Err(ProbeError::Query(err)),
        Ok(offered) => match best_entrypoint(offered@) {
            Some(entrypoint) => Ok(entrypoint),
            None => Err(ProbeError::NoEntrypoint),
        },
    }
}

/// Returns the entrypoint to encode H.264 Main with: the full one, or the low-power one where it is all there is.
///
/// Some Intel parts expose H.264 encode only through `VAEntrypointEncSliceLP`.
pub fn encode_entrypoint(entrypoints: &Result<Vec<u32>, VaError>) -> (r: Result<u32, ProbeError>)
    ensures
        r == entrypoint_for(*entrypoints),
{
    match entrypoints {
        Err(err) => Err(ProbeError::Query(*err)),
        Ok(offered) => match pick_entrypoint(offered.as_slice()) {
            Some(entrypoint) => Ok(entrypoint),
            None => Err(ProbeError::NoEntrypoint),
        },
    }
}

/// Checks that a driver with these entrypoints of H.264 Main can encode it,
/// which is what [`Encoder::new`] needs of a render node.
///
/// # Errors
///
/// Fails when the driver offers neither the full nor the low-power H.264 Main
/// encode entrypoint, or cannot be asked.
pub fn probe(entrypoints: &Result<Vec<u32>, VaError>) -> (r: Result<(), ProbeError>)
    ensures
        r == Need::Encode.verdict(*entrypoints),
{
    match encode_entrypoint(entrypoints) {
        Ok(_) => Ok(()),
        Err(err) => Err(err),
    }
}

/// The packed header kinds to ask for, out of what a driver says it takes:
/// sequence and picture. None where it takes no packed headers or cannot be asked.
pub open spec fn packed_kinds(reply: Result<u32, VaError>) -> u32 {
    match reply {
        Err(_) => 0,
        Ok(value) => if value & VA_ATTRIB_NOT_SUPPORTED != 0 {
            0
        } else {
            value & (VA_ENC_PACKED_HEADER_SEQUENCE | VA_ENC_PACKED_HEADER_PICTURE)
        },
    }
}

/// Returns the packed header kinds to ask for: sequence and picture, where the driver takes them.
///
/// Zero when the driver takes neither, or when asking fails.
pub fn packed_headers(reply: Result<u32, VaError>) -> (r: u32)
    ensures
        r == packed_kinds(reply),
{
    match reply {
        Err(_) => 0,
        Ok(value) => if value & VA_ATTRIB_NOT_SUPPORTED != 0 {
            0
        } else {
            value & (VA_ENC_PACKED_HEADER_SEQUENCE | VA_ENC_PACKED_HEADER_PICTURE)
        },
    }
}

/// Returns whether the VA fourcc `fourcc` is packed RGB, which has no YUV matrix of its own.
pub fn is_rgb(fourcc: u32) -> (r: bool)
    ensures
        r == dmabuf::packed_rgb(fourcc),
{
    match fourcc {
        VA_FOURCC_BGRX => true,
        VA_FOURCC_BGRA => true,
        VA_FOURCC_RGBX => true,
        VA_FOURCC_RGBA => true,
        VA_FOURCC_XRGB => true,
        VA_FOURCC_ARGB => true,
        _ => false,
    }
}

/// An NV12 surface to encode from or to reconstruct in.
pub open spec fn encode_surface_request(config: Config) -> SurfaceRequest {
    SurfaceRequest {
        rt_format: VA_RT_FORMAT_YUV420,
        fourcc: VA_FOURCC_NV12,
        width: config.width,
        height: config.height,
        usage: USAGE_HINT_ENCODER,
    }
}

/// Returns the request for one NV12 encode surface.
pub fn make_surface(config: &Config) -> (r: SurfaceRequest)
    ensures
        r == encode_surface_request(*config),
{
    SurfaceRequest {
        rt_format: VA_RT_FORMAT_YUV420,
        fourcc: VA_FOURCC_NV12,
        width: config.width,
        height: config.height,
        usage: USAGE_HINT_ENCODER,
    }
}

/// Why a frame was not encoded, or a bitrate not set.
#[derive(Copy, Clone, Debug, PartialEq, Eq, Structural)]
pub enum EncodeError {
    /// The pixels are fewer than a frame's.
    ShortFrame { length: usize, width: u32, height: u32, expected: u128 },
    /// The pixels did not get into the surface.
    Upload(UploadError),
    /// No VA format goes by this DRM format.
    NoFormat { drm_format: u32 },
    /// The driver refused the buffer.
    Import(ImportError),
    /// The video processor failed.
    Processor(ProcessorError),
    /// The picture was not encoded.
    Picture(PictureError),
    /// The coded picture cannot be read.
    ReadCoded(VaError),
    /// A bitrate of zero.
    ZeroBitrate,
    /// A larger coded buffer was refused.
    Coded(VaError),
}

/// Why pixels did not get into a surface.
#[derive(Copy, Clone, Debug, PartialEq, Eq, Structural)]
pub enum UploadError {
    /// The driver cannot be asked for its image formats.
    Formats(VaError),
    /// None of them is NV12.
    NoFormat,
    /// The surface cannot be mapped.
    Image(VaError),
    /// The write did not complete.
    Sync(VaError),
}

/// Why a submission gave no coded picture.
#[derive(Copy, Clone, Debug, PartialEq, Eq, Structural)]
pub enum SubmitError {
    /// It was not rendered.
    Picture(PictureError),
    /// The coded buffer cannot be mapped.
    ReadCoded(VaError),
}

/// A frame to upload into `surface`: find the driver's NV12 image format,
/// map the surface in it, fill in the pixels, and wait until they are there.
#[derive(Copy, Clone, Debug, PartialEq, Eq, Structural)]
pub struct Upload {
    pub surface: Surface,
    pub width: u32,
    pub height: u32,
    pub keyframe: bool,
}

impl Upload {
    /// Returns which of the driver's image formats to map the surface in.
    pub fn format(&self, reply: &Result<Vec<u32>, VaError>) -> (r: Result<usize, UploadError>)
        ensures
            match *reply {
                Err(err) => r == Err::<usize, UploadError>(UploadError::Formats(err)),
                Ok(fourccs) => if fourccs@.contains(VA_FOURCC_NV12) {
                    r is Ok && upload::first_nv12(fourccs@, r->Ok_0 as int)
                } else {
                    r == Err::<usize, UploadError>(UploadError::NoFormat)
                },
            },
    {
        match reply {
            Err(err) => Err(UploadError::Formats(*err)),
            Ok(fourccs) => match upload::nv12_format(fourccs.as_slice()) {
                Some(index) => Ok(index),
                None => Err(UploadError::NoFormat),
            },
        }
    }
}

/// A frame in a DMA-BUF to import.
#[derive(Copy, Clone, Debug, PartialEq, Eq, Structural)]
pub struct ImportFrame {
    pub import: Import,
    /// How it gets into the encoder's own surface, or none where it is
    /// encoded from where it is.
    pub conversion: Option<Conversion>,
    pub keyframe: bool,
}

/// A conversion of a frame by the video processor.
#[derive(Copy, Clone, Debug, PartialEq, Eq, Structural)]
pub struct Conversion {
    /// The YUV space it is in, or none for RGB.
    pub input_color: Option<Color>,
}

/// A frame that waits for the video processor to open.
#[derive(Copy, Clone, Debug, PartialEq, Eq, Structural)]
pub struct Waiting {
    pub source: Surface,
    pub conversion: Conversion,
    pub keyframe: bool,
}

/// What an imported frame takes next.
#[derive(Debug)]
pub enum FrameStep {
    /// The answer to the probe of the video processor.
    Probe(vpp::Probing, Waiting),
    /// A blit into the encoder's own surface.
    Blit(Blit),
    /// The encoding.
    Submit(Submission),
}

/// A picture to encode: the buffers to create and render it with, in this
/// order, from `source` under `context`. The coded picture then is in the
/// segments of the buffer `coded`.
#[derive(Debug)]
pub struct Submission {
    pub source: Surface,
    pub timestamp: u64,
    pub context: u32,
    pub coded: u32,
    pub buffers: Vec<BufferType>,
    /// Whether it opens a group.
    pub idr: bool,
    pub meta: FrameMeta,
    /// Which of the reconstructed surfaces it goes to.
    pub recon: usize,
}

/// A coded buffer to create, for a higher bitrate.
#[derive(Copy, Clone, Debug, PartialEq, Eq, Structural)]
pub struct NewCoded {
    pub context: u32,
    pub size: usize,
    pub bitrate: u32,
}

/// What a change of the bitrate takes next.
#[derive(Copy, Clone, Debug, PartialEq, Eq, Structural)]
pub enum BitrateStep {
    /// Nothing: it is made.
    Done,
    /// A larger coded buffer.
    Allocate(NewCoded),
}

/// The numbers of the frame that comes `counter` after the last IDR. The
/// frame number counts modulo [`LIMIT`], the picture order count in fields.
pub open spec fn frame_meta(counter: int) -> FrameMeta {
    FrameMeta {
        poc: ((2 * counter) % 0x1_0000_0000) as u32,
        frame_num: (counter % LIMIT as int) as u32,
    }
}

/// The slice header of a frame.
pub open spec fn frame_header(blank: SliceHeader, pps: Pps, idr: bool, meta: FrameMeta) -> SliceHeader {
    SliceHeader {
        first_mb_in_slice: 0,
        slice_type: if idr {
            SliceType::I
        } else {
            SliceType::P
        },
        pic_parameter_set_id: pps.pic_parameter_set_id,
        frame_num: meta.frame_num as u16,
        pic_order_cnt_lsb: (meta.poc % (LIMIT * 2) as u32) as u16,
        num_ref_idx_l0_active_minus1: pps.num_ref_idx_l0_default_active_minus1,
        num_ref_idx_l1_active_minus1: pps.num_ref_idx_l1_default_active_minus1,
        ..blank
    }
}

/// `header` is the slice header of a frame.
pub open spec fn is_frame_header(header: SliceHeader, pps: Pps, idr: bool, meta: FrameMeta) -> bool {
    exists|blank: SliceHeader| #[trigger]
        blank.blank() && header == frame_header(blank, pps, idr, meta)
}

/// Returns the slice header of a frame.
fn build_header(pps: &Pps, idr: bool, meta: FrameMeta) -> (r: SliceHeader)
    requires
        meta.frame_num < LIMIT,
    ensures
        is_frame_header(r, *pps, idr, meta),
{
    let slice_type = if idr {
        SliceType::I
    } else {
        SliceType::P
    };
    let start = SliceHeaderBuilder::new(pps);
    let ghost blank = choose|blank: SliceHeader| #[trigger]
        blank.blank() && start.header() == (SliceHeader {
            pic_parameter_set_id: pps.pic_parameter_set_id,
            num_ref_idx_l0_active_minus1: pps.num_ref_idx_l0_default_active_minus1,
            num_ref_idx_l1_active_minus1: pps.num_ref_idx_l1_default_active_minus1,
            ..blank
        });
    let header = start.slice_type(slice_type).first_mb_in_slice(0).frame_num(
        meta.frame_num as u16,
    ).pic_order_cnt_lsb((meta.poc % (LIMIT * 2)) as u16).build();
    assert(blank.blank() && header == frame_header(blank, *pps, idr, meta));
    header
}

/// The elements of the sequence parameter set that goes out with an IDR.
pub open spec fn sps_elements(pps: Pps) -> Seq<Element> {
    syntax::sps_syntax(*pps.sps)
}

/// The payload of that sequence parameter set.
pub open spec fn sps_payload(pps: Pps) -> Seq<bool> {
    syntax::payload(sps_elements(pps))
}

/// The NAL unit of that sequence parameter set.
pub open spec fn sps_unit(pps: Pps) -> Seq<u8> {
    syntax::nal_unit(3, NaluType::Sps, sps_payload(pps), true)
}

/// The elements of the picture parameter set that goes out with an IDR.
pub open spec fn pps_elements(pps: Pps) -> Seq<Element> {
    syntax::pps_syntax(pps)
}

/// The payload of that picture parameter set.
pub open spec fn pps_payload(pps: Pps) -> Seq<bool> {
    syntax::payload(pps_elements(pps))
}

/// The NAL unit of that picture parameter set.
pub open spec fn pps_unit(pps: Pps) -> Seq<u8> {
    syntax::nal_unit(3, NaluType::Pps, pps_payload(pps), true)
}

/// The two buffers at `i` are a packed header of `bytes`.
pub open spec fn packs(
    buffers: Seq<BufferType>,
    i: int,
    kind: EncPackedHeaderType,
    bytes: Seq<u8>,
) -> bool {
    &&& buffers[i] == BufferType::EncPackedHeaderParameter(
        EncPackedHeaderParameter {
            kind,
            bit_length: (bytes.len() * 8) as u32,
            has_emulation_bytes: true,
        },
    )
    &&& buffers[i + 1] matches BufferType::EncPackedHeaderData(data) && data@ == bytes
}

/// The segments of a coded picture, one after the other.
pub open spec fn joined(segments: Seq<Vec<u8>>) -> Seq<u8>
    decreases segments.len(),
{
    if segments.len() == 0 {
        seq![]
    } else {
        joined(segments.drop_last()) + segments.last()@
    }
}

/// Returns the bytes of a coded picture.
pub fn read_coded(segments: &Vec<Vec<u8>>) -> (r: Vec<u8>)
    ensures
        r@ == joined(segments@),
{
    let mut out: Vec<u8> = Vec::new();
    let mut i: usize = 0;
    while i < segments.len()
        invariant
            i <= segments@.len(),
            out@ == joined(segments@.take(i as int)),
        decreases segments@.len() - i,
    {
        assert(segments@.take(i + 1).drop_last() =~= segments@.take(i as int));
        let ghost before = out@;
        out.extend_from_slice(segments[i].as_slice());
        assert(out@ =~= before + segments@[i as int]@);
        i += 1;
    }
    assert(segments@.take(segments@.len() as int) =~= segments@);
    out
}

/// What an [`Encoder`] holds.
pub ghost struct EncoderState {
    pub config: Config,
    pub pps: Pps,
    pub width_mbs: int,
    pub height_mbs: int,
    /// The surface that pixels are uploaded to and blits go into.
    pub input: Surface,
    /// The surfaces that frames are reconstructed in, by turns.
    pub recon: Seq<Surface>,
    /// The frame to predict from: which of the reconstructed surfaces it is in, and its numbers.
    pub reference: Option<(int, FrameMeta)>,
    /// The frames since the last IDR.
    pub counter: int,
    pub processor: Option<ProcessorState>,
    pub reset_rate_control: bool,
    pub coded: u32,
    pub coded_size: int,
    pub context: u32,
    pub va_config: u32,
    pub display: Display,
}

impl EncoderState {
    /// The frames in a group. One where the configuration says zero, since
    /// then every frame has to be a keyframe.
    pub open spec fn group(self) -> int {
        if self.config.gop == 0 {
            1
        } else {
            self.config.gop as int
        }
    }

    /// The parameter sets are those of the configuration and the macroblock
    /// counts theirs, there are two
    /// reconstructed surfaces, the counter stays within a group, and the
    /// reference is the frame before this one in it.
    pub open spec fn wf(self) -> bool {
        &&& stream::size_in_range(self.config.width as int, self.config.height as int)
        &&& stream::is_stream_sps(
            *self.pps.sps,
            self.config.width as int,
            self.config.height as int,
            self.config.framerate as int,
            self.config.color,
        )
        &&& stream::is_stream_pps(self.pps)
        &&& self.width_mbs == self.pps.sps.pic_width_in_mbs_minus1 + 1
        &&& self.height_mbs == self.pps.sps.pic_height_in_map_units_minus1 + 1
        &&& self.config.device is Some
        &&& self.recon.len() == 2
        &&& 0 <= self.counter <= self.group()
        &&& self.reference == if self.counter == 0 {
            None
        } else {
            Some(((self.counter - 1) % 2, frame_meta(self.counter - 1)))
        }
        &&& self.processor is Some ==> self.processor->0.display == self.display
        &&& self.coded_size >= stream::coded_bytes(self.config.bitrate as int)
    }

    /// A frame that opens a group.
    pub open spec fn opens_group(self, keyframe: bool) -> bool {
        keyframe || self.counter % self.config.gop as int == 0
    }

    /// The state that a frame is encoded in: at the start of a group, an IDR
    /// resets the frame numbering and the reference list.
    pub open spec fn started(self, keyframe: bool) -> EncoderState {
        if self.opens_group(keyframe) {
            EncoderState { counter: 0, reference: None, ..self }
        } else {
            self
        }
    }

    /// The state behind a frame that was encoded.
    pub open spec fn advanced(self) -> EncoderState {
        EncoderState {
            reference: Some((self.counter % 2, frame_meta(self.counter))),
            counter: self.counter + 1,
            reset_rate_control: false,
            ..self
        }
    }

    /// The picture to predict from: the surface that it is in, and its numbers.
    pub open spec fn reference_picture(self) -> Option<(u32, FrameMeta)> {
        match self.reference {
            Some((i, meta)) => Some((self.recon[i].id, meta)),
            None => None,
        }
    }

    /// The buffers with the sequence, picture and slice parameters of the
    /// frame to encode in this state.
    pub open spec fn describes(
        self,
        sequence: BufferType,
        picture: BufferType,
        slice: BufferType,
        idr: bool,
    ) -> bool {
        let meta = frame_meta(self.counter);
        &&& sequence matches BufferType::EncSequenceParameter(param) && params::is_seq_param(
            param,
            *self.pps.sps,
            self.config.bitrate,
            LIMIT,
            0,
        )
        &&& picture matches BufferType::EncPictureParameter(param) && params::is_pic_param(
            param,
            self.pps,
            self.coded,
            self.recon[self.counter % 2].id,
            meta,
            idr,
            self.reference_picture(),
        )
        &&& slice matches BufferType::EncSliceParameter(param) && exists|header: SliceHeader|
            #[trigger]
            is_frame_header(header, self.pps, idr, meta) && params::is_slice_param(
                param,
                self.pps,
                header,
                self.reference_picture(),
                (self.width_mbs * self.height_mbs) as u32,
            )
    }

    /// `buffers` are those of the frame to encode in this state: sequence,
    /// picture and slice, the packed headers of an IDR, and the rate control.
    pub open spec fn renders(self, buffers: Seq<BufferType>, idr: bool) -> bool {
        let tail = if idr {
            7int
        } else {
            3
        };
        &&& buffers.len() == tail + 2
        &&& self.describes(buffers[0], buffers[1], buffers[2], idr)
        &&& idr ==> packs(buffers, 3, EncPackedHeaderType::Sequence, sps_unit(self.pps))
        &&& idr ==> packs(buffers, 5, EncPackedHeaderType::Picture, pps_unit(self.pps))
        &&& buffers[tail] == BufferType::EncMiscParameter(
            EncMiscParameter::RateControl(
                params::rate_control(self.config.bitrate, self.reset_rate_control),
            ),
        )
        &&& buffers[tail + 1] == BufferType::EncMiscParameter(
            EncMiscParameter::FrameRate(
                EncMiscParameterFrameRate { framerate: self.config.framerate, framerate_flags: 0 },
            ),
        )
    }

    /// `submission` encodes the frame in `source` in this state.
    pub open spec fn submits(self, submission: Submission, source: Surface, idr: bool) -> bool {
        &&& submission.source == source
        &&& submission.timestamp == frame_meta(self.counter).frame_num
        &&& submission.context == self.context
        &&& submission.coded == self.coded
        &&& submission.idr == idr
        &&& submission.meta == frame_meta(self.counter)
        &&& submission.recon == self.counter % 2
        &&& self.renders(submission.buffers@, idr)
    }

    /// `submission` is the frame that is being encoded.
    pub open spec fn awaits(self, submission: Submission) -> bool {
        &&& self.counter < self.group()
        &&& submission.meta == frame_meta(self.counter)
        &&& submission.recon == self.counter % 2
    }

    /// `r` is what beginning to encode the frame in `source` comes to.
    pub open spec fn begins(
        self,
        after: EncoderState,
        submission: Submission,
        source: Surface,
        keyframe: bool,
    ) -> bool {
        &&& after == self.started(keyframe)
        &&& after.submits(submission, source, self.opens_group(keyframe))
        &&& after.awaits(submission)
    }

    /// A frame in `buffer` can be encoded from where it is: NV12 of the
    /// encoder's size, in whole macroblocks, and in the stream's color as far
    /// as is known.
    ///
    /// The macroblock condition is not a formality: the encoder reads whole
    /// macroblocks, so it reads 1088 rows of a 1080-row picture, and a producer
    /// that places the chroma plane right after the last visible luma row
    /// has nothing there to read.
    pub open spec fn in_place(self, buffer: DmaBuf) -> bool {
        &&& dmabuf::va_fourcc(buffer.drm_format) == Some(VA_FOURCC_NV12)
        &&& buffer.width == self.config.width
        &&& buffer.height == self.config.height
        &&& buffer.width % 16 == 0
        &&& buffer.height % 16 == 0
        &&& buffer.color is None || buffer.color == Some(self.config.color)
    }

    /// How a frame in `buffer` is imported.
    pub open spec fn importing(self, buffer: DmaBuf, keyframe: bool) -> ImportFrame {
        if self.in_place(buffer) {
            ImportFrame {
                import: Import { display: self.display, usage: USAGE_HINT_ENCODER, buffer },
                conversion: None,
                keyframe,
            }
        } else {
            ImportFrame {
                import: Import { display: self.display, usage: USAGE_HINT_VPP_READ, buffer },
                conversion: Some(
                    Conversion {
                        input_color: if dmabuf::va_fourcc(buffer.drm_format) is Some
                            && dmabuf::packed_rgb(dmabuf::va_fourcc(buffer.drm_format)->0) {
                            None
                        } else if buffer.color is Some {
                            buffer.color
                        } else {
                            Some(self.config.color)
                        },
                    },
                ),
                keyframe,
            }
        }
    }

    /// The state behind the answer to an import: a frame that is encoded from
    /// where it is begins, and anything else changes nothing.
    pub open spec fn after_import(
        self,
        frame: ImportFrame,
        reply: Result<Surface, ImportError>,
    ) -> EncoderState {
        if reply is Ok && frame.conversion is None {
            self.started(frame.keyframe)
        } else {
            self
        }
    }

    /// The state behind the answer to the video processor's configuration.
    pub open spec fn after_processor(self, reply: Result<u32, VaError>) -> EncoderState {
        match reply {
            Err(_) => self,
            Ok(config) => self.with_processor(
                ProcessorState { display: self.display, config, contexts: Map::empty() },
            ),
        }
    }

    /// The blit of a frame into the encoder's own surface.
    pub open spec fn job(self, source: Surface, conversion: Conversion) -> vpp::Job {
        vpp::Job {
            input: source,
            output: self.input,
            input_color: conversion.input_color,
            output_color: Some(self.config.color),
        }
    }

    /// The same with a video processor.
    pub open spec fn with_processor(self, processor: ProcessorState) -> EncoderState {
        EncoderState { processor: Some(processor), ..self }
    }

    /// The same at another bitrate. The rate controller is reset where it is
    /// another one.
    pub open spec fn at_bitrate(self, bitrate: u32) -> EncoderState {
        EncoderState {
            config: Config { bitrate, ..self.config },
            reset_rate_control: self.reset_rate_control || bitrate != self.config.bitrate,
            ..self
        }
    }

    /// The same with another coded buffer.
    pub open spec fn with_coded(self, coded: u32, size: int) -> EncoderState {
        EncoderState { coded, coded_size: size, ..self }
    }
}

/// A VA-API H.264 encoder. Built once, fed NV12 frames, emits Annex-B H.264.
pub struct Encoder {
    config: Config,
    pps: Rc<Pps>,
    width_mbs: u16,
    height_mbs: u16,
    /// Source surface (reused; NV12 re-uploaded per frame).
    input: Surface,
    /// Reconstructed surfaces (current and previous reference for IPPP).
    recon: Vec<Surface>,
    /// Reference from the previous encoded frame: (recon index, metadata).
    reference: Option<(usize, FrameMeta)>,
    counter: u32,
    /// The video processor converting and scaling DMA-BUF input, opened on the
    /// first frame that needs it.
    processor: Option<Processor>,
    /// Set by a bitrate change, and cleared by the next frame, which asks the
    /// driver to restart its rate controller at the new target.
    reset_rate_control: bool,
    coded: u32,
    coded_size: usize,
    context: u32,
    va_config: u32,
    display: Display,
}

impl View for Encoder {
    type V = EncoderState;

    closed spec fn view(&self) -> EncoderState {
        EncoderState {
            config: self.config,
            pps: *self.pps,
            width_mbs: self.width_mbs as int,
            height_mbs: self.height_mbs as int,
            input: self.input,
            recon: self.recon@,
            reference: match self.reference {
                Some((i, meta)) => Some((i as int, meta)),
                None => None,
            },
            counter: self.counter as int,
            processor: match self.processor {
                Some(processor) => Some(processor@),
                None => None,
            },
            reset_rate_control: self.reset_rate_control,
            coded: self.coded,
            coded_size: self.coded_size as int,
            context: self.context,
            va_config: self.va_config,
            display: self.display,
        }
    }
}

impl Encoder {
    /// Encodes one tightly-packed NV12 frame. The coded picture is Annex-B
    /// H.264 (with inline SPS/PPS on each IDR). `keyframe` forces an IDR.
    ///
    /// # Errors
    ///
    /// Fails when `nv12` is shorter than a frame at the encoder's size.
    pub fn encode_nv12(&self, nv12: &[u8], keyframe: bool) -> (r: Result<Upload, EncodeError>)
        ensures
            ({
                let (width, height) = (self@.config.width, self@.config.height);
                let expected = upload::nv12_length(width as int, height as int);
                r == if nv12@.len() < expected {
                    Err::<Upload, EncodeError>(
                        EncodeError::ShortFrame {
                            length: nv12@.len() as usize,
                            width,
                            height,
                            expected: expected as u128,
                        },
                    )
                } else {
                    Ok(Upload { surface: self@.input, width, height, keyframe })
                }
            }),
    {
        let (width, height): (u32, u32) = (self.config.width, self.config.height);
        let (w, h): (u128, u128) = (width as u128, height as u128);
        let chroma_rows: u128 = h / 2 + h % 2;
        assert(0 <= w * h <= 0x1_0000_0000 * 0x1_0000_0000 && 0 <= w * chroma_rows <= 0x1_0000_0000
            * 0x1_0000_0000) by (nonlinear_arith)
            requires
                0 <= w <= 0x1_0000_0000,
                0 <= h <= 0x1_0000_0000,
                0 <= chroma_rows <= 0x1_0000_0000,
        ;
        let expected: u128 = w * h + w * chroma_rows;
        if (nv12.len() as u128) < expected {
            return Err(EncodeError::ShortFrame { length: nv12.len(), width, height, expected });
        }
        Ok(Upload { surface: self.input, width, height, keyframe })
    }

    /// Takes what came of an upload, and returns the picture to encode.
    ///
    /// # Errors
    ///
    /// Fails when the upload did.
    pub fn uploaded(&mut self, upload: Upload, reply: Result<(), UploadError>) -> (r: Result<
        Submission,
        EncodeError,
    >)
        requires
            old(self)@.wf(),
            reply is Ok ==> upload.keyframe || old(self)@.config.gop != 0,
        ensures
            final(self)@.wf(),
            match reply {
                Err(err) => {
                    &&& r == Err::<Submission, EncodeError>(EncodeError::Upload(err))
                    &&& final(self)@ == old(self)@
                },
                Ok(()) => {
                    &&& r is Ok
                    &&& old(self)@.begins(
                        final(self)@,
                        r->Ok_0,
                        upload.surface,
                        upload.keyframe,
                    )
                },
            },
    {
        match reply {
            Err(err) => Err(EncodeError::Upload(err)),
            Ok(()) => Ok(self.encode_surface(upload.surface, upload.keyframe)),
        }
    }

    /// Encodes one frame held in a DMA-BUF, like [`encode_nv12`](Self::encode_nv12).
    ///
    /// An NV12 buffer at the encoder's size, whose size is a whole number of
    /// macroblocks and whose [`color`](DmaBuf::color) is the stream's or
    /// unknown, is imported and encoded in place. Any other mapped format or
    /// size goes through the video processor into the encoder's own surface
    /// first: scaled to the encoder's size and converted to [`Config::color`].
    /// A YUV buffer with no color of its own is taken to be in that space
    /// already. Nothing reaches the CPU on either path.
    ///
    /// The producer must have finished writing the buffer; this does not wait
    /// on its fence.
    ///
    /// # Errors
    ///
    /// Fails for a format with no VA name.
    pub fn encode_dmabuf(&self, buffer: DmaBuf, keyframe: bool) -> (r: Result<
        ImportFrame,
        EncodeError,
    >)
        ensures
            r == if dmabuf::va_fourcc(buffer.drm_format) is None {
                Err::<ImportFrame, EncodeError>(
                    EncodeError::NoFormat { drm_format: buffer.drm_format },
                )
            } else {
                Ok(self@.importing(buffer, keyframe))
            },
    {
        let fourcc: u32 = match buffer.fourcc() {
            Some(fourcc) => fourcc,
            None => {
                return Err(EncodeError::NoFormat { drm_format: buffer.drm_format });
            },
        };
        let color = self.config.color;
        let same_color = match buffer.color {
            None => true,
            Some(own) => own == color,
        };
        let in_place = fourcc == VA_FOURCC_NV12 && buffer.width == self.config.width
            && buffer.height == self.config.height && buffer.width % 16 == 0 && buffer.height % 16
            == 0 && same_color;
        if in_place {
            let import = Import { display: self.display, usage: USAGE_HINT_ENCODER, buffer };
            return Ok(ImportFrame { import, conversion: None, keyframe });
        }
        let input_color = if is_rgb(fourcc) {
            None
        } else {
            match buffer.color {
                Some(own) => Some(own),
                None => Some(color),
            }
        };
        let import = Import { display: self.display, usage: USAGE_HINT_VPP_READ, buffer };
        Ok(ImportFrame { import, conversion: Some(Conversion { input_color }), keyframe })
    }

    /// Takes what came of an import, and returns what the frame takes next.
    ///
    /// # Errors
    ///
    /// Fails when the driver refused to import the buffer (an unsupported
    /// modifier or layout), and as a blit does. The encoder stays usable after
    /// a refused import, so a caller can fall back to
    /// [`encode_nv12`](Self::encode_nv12) for the same frame.
    pub fn imported(&mut self, frame: ImportFrame, reply: Result<Surface, ImportError>) -> (r:
        Result<FrameStep, EncodeError>)
        requires
            old(self)@.wf(),
            reply is Ok && frame.conversion is None ==> frame.keyframe || old(self)@.config.gop
                != 0,
        ensures
            final(self)@.wf(),
            final(self)@ == old(self)@.after_import(frame, reply),
            match (reply, frame.conversion) {
                (Err(err), _) => r == Err::<FrameStep, EncodeError>(EncodeError::Import(err)),
                (Ok(source), None) => {
                    &&& r matches Ok(FrameStep::Submit(submission))
                    &&& old(self)@.begins(final(self)@, submission, source, frame.keyframe)
                },
                (Ok(source), Some(conversion)) => match old(self)@.processor {
                    None => r == Ok::<FrameStep, EncodeError>(
                        FrameStep::Probe(
                            vpp::Probing { display: old(self)@.display },
                            Waiting { source, conversion, keyframe: frame.keyframe },
                        ),
                    ),
                    Some(processor) => r == match processor.next(
                        old(self)@.job(source, conversion),
                    ) {
                        Ok(blit) => Ok::<FrameStep, EncodeError>(FrameStep::Blit(blit)),
                        Err(err) => Err(EncodeError::Processor(err)),
                    },
                },
            },
    {
        match reply {
            Err(err) => Err(EncodeError::Import(err)),
            Ok(source) => match frame.conversion {
                None => Ok(FrameStep::Submit(self.encode_surface(source, frame.keyframe))),
                Some(conversion) => match &self.processor {
                    None => Ok(
                        FrameStep::Probe(
                            Processor::with_display(self.display),
                            Waiting { source, conversion, keyframe: frame.keyframe },
                        ),
                    ),
                    Some(processor) => match processor.blit(
                        &source,
                        &self.input,
                        conversion.input_color,
                        Some(self.config.color),
                    ) {
                        Ok(blit) => Ok(FrameStep::Blit(blit)),
                        Err(err) => Err(EncodeError::Processor(err)),
                    },
                },
            },
        }
    }

    /// Takes the configuration that the video processor was opened with, for
    /// the frame that waits for it, and keeps the processor.
    ///
    /// # Errors
    ///
    /// Fails when the configuration was refused, and as a blit does.
    pub fn processor_created(
        &mut self,
        configuring: vpp::Configuring,
        waiting: Waiting,
        reply: Result<u32, VaError>,
    ) -> (r: Result<Blit, EncodeError>)
        requires
            old(self)@.wf(),
            configuring.display == old(self)@.display,
        ensures
            final(self)@.wf(),
            final(self)@ == old(self)@.after_processor(reply),
            r == match reply {
                Err(err) => Err::<Blit, EncodeError>(
                    EncodeError::Processor(ProcessorError::Config(err)),
                ),
                Ok(_) => match final(self)@.processor->0.next(
                    old(self)@.job(waiting.source, waiting.conversion),
                ) {
                    Ok(blit) => Ok::<Blit, EncodeError>(blit),
                    Err(err) => Err(EncodeError::Processor(err)),
                },
            },
    {
        match configuring.created(reply) {
            Err(err) => Err(EncodeError::Processor(err)),
            Ok(processor) => {
                let blit = processor.blit(
                    &waiting.source,
                    &self.input,
                    waiting.conversion.input_color,
                    Some(self.config.color),
                );
                self.processor = Some(processor);
                match blit {
                    Ok(blit) => Ok(blit),
                    Err(err) => Err(EncodeError::Processor(err)),
                }
            },
        }
    }

    /// Takes the context that a blit had to have first.
    ///
    /// # Errors
    ///
    /// Fails when the context was refused.
    pub fn context_created(&mut self, new: NewContext, reply: Result<u32, VaError>) -> (r: Result<
        RunBlit,
        EncodeError,
    >)
        requires
            old(self)@.wf(),
            old(self)@.processor is Some,
        ensures
            final(self)@.wf(),
            match reply {
                Err(error) => {
                    &&& r == Err::<RunBlit, EncodeError>(
                        EncodeError::Processor(
                            ProcessorError::Context {
                                width: new.job.output.width,
                                height: new.job.output.height,
                                error,
                            },
                        ),
                    )
                    &&& final(self)@ == old(self)@
                },
                Ok(context) => {
                    &&& r == Ok::<RunBlit, EncodeError>(vpp::run_of(context, new.job))
                    &&& final(self)@ == old(self)@.with_processor(
                        old(self)@.processor->0.with_context(
                            new.job.output.width,
                            new.job.output.height,
                            context,
                        ),
                    )
                },
            },
    {
        let mut taken: Option<Processor> = None;
        std::mem::swap(&mut taken, &mut self.processor);
        let mut processor = taken.unwrap();
        let result = processor.context_created(new, reply);
        self.processor = Some(processor);
        match result {
            Ok(run) => Ok(run),
            Err(err) => Err(EncodeError::Processor(err)),
        }
    }

    /// Takes what came of a blit into the encoder's own surface, and returns
    /// the picture to encode.
    ///
    /// # Errors
    ///
    /// Fails when the blit did.
    pub fn blitted(
        &mut self,
        run: &RunBlit,
        keyframe: bool,
        reply: Result<(), PictureError>,
    ) -> (r: Result<Submission, EncodeError>)
        requires
            old(self)@.wf(),
            old(self)@.processor is Some,
            reply is Ok ==> keyframe || old(self)@.config.gop != 0,
        ensures
            final(self)@.wf(),
            match reply {
                Err(err) => {
                    &&& r == Err::<Submission, EncodeError>(
                        EncodeError::Processor(ProcessorError::Blit(err)),
                    )
                    &&& final(self)@ == old(self)@.with_processor(
                        old(self)@.processor->0.without_context(
                            run.job.output.width,
                            run.job.output.height,
                        ),
                    )
                },
                Ok(()) => {
                    &&& r is Ok
                    &&& old(self)@.begins(final(self)@, r->Ok_0, run.job.output, keyframe)
                },
            },
    {
        let mut taken: Option<Processor> = None;
        std::mem::swap(&mut taken, &mut self.processor);
        let mut processor = taken.unwrap();
        let result = processor.blitted(run, reply);
        self.processor = Some(processor);
        assert(reply is Ok ==> self@ == old(self)@);
        match result {
            Ok(()) => Ok(self.encode_surface(run.job.output, keyframe)),
            Err(err) => Err(EncodeError::Processor(err)),
        }
    }

    /// Changes the target bitrate, in bits per second, from the next frame on.
    ///
    /// The rate control parameters go out with every frame, so this neither
    /// forces an IDR nor rebuilds the session; the next frame also asks the
    /// driver to reset its rate controller. It then converges over its window,
    /// [`RATE_CONTROL_WINDOW_MS`].
    ///
    /// A higher rate can produce a picture larger than the buffer sized for
    /// the old one, and a truncated picture is corrupt rather than short, so
    /// it may take a larger buffer first.
    ///
    /// The level in the SPS is not revisited, so a rate far above the one the
    /// stream opened with can exceed what that level allows.
    ///
    /// # Errors
    ///
    /// Fails for a bitrate of zero.
    pub fn set_bitrate(&mut self, bitrate: u32) -> (r: Result<BitrateStep, EncodeError>)
        requires
            old(self)@.wf(),
        ensures
            final(self)@.wf(),
            if bitrate == 0 {
                &&& r == Err::<BitrateStep, EncodeError>(EncodeError::ZeroBitrate)
                &&& final(self)@ == old(self)@
            } else if stream::coded_bytes(bitrate as int) > old(self)@.coded_size {
                &&& r == Ok::<BitrateStep, EncodeError>(
                    BitrateStep::Allocate(
                        NewCoded {
                            context: old(self)@.context,
                            size: stream::coded_bytes(bitrate as int) as usize,
                            bitrate,
                        },
                    ),
                )
                &&& final(self)@ == old(self)@
            } else {
                &&& r == Ok::<BitrateStep, EncodeError>(BitrateStep::Done)
                &&& final(self)@ == old(self)@.at_bitrate(bitrate)
            },
    {
        if bitrate == 0 {
            return Err(EncodeError::ZeroBitrate);
        }
        let size: usize = stream::coded_size(bitrate);
        if size > self.coded_size {
            return Ok(BitrateStep::Allocate(NewCoded { context: self.context, size, bitrate }));
        }
        self.apply_bitrate(bitrate);
        Ok(BitrateStep::Done)
    }

    /// Takes the larger coded buffer that a bitrate had to have first.
    ///
    /// # Errors
    ///
    /// Fails when it was refused, in which case the old rate stays.
    pub fn coded_created(&mut self, new: NewCoded, reply: Result<u32, VaError>) -> (r: Result<
        (),
        EncodeError,
    >)
        requires
            old(self)@.wf(),
            new.size == stream::coded_bytes(new.bitrate as int),
        ensures
            final(self)@.wf(),
            match reply {
                Err(err) => {
                    &&& r == Err::<(), EncodeError>(EncodeError::Coded(err))
                    &&& final(self)@ == old(self)@
                },
                Ok(coded) => {
                    &&& r == Ok::<(), EncodeError>(())
                    &&& final(self)@ == old(self)@.with_coded(coded, new.size as int).at_bitrate(
                        new.bitrate,
                    )
                },
            },
    {
        match reply {
            Err(err) => Err(EncodeError::Coded(err)),
            Ok(coded) => {
                self.coded = coded;
                self.coded_size = new.size;
                self.apply_bitrate(new.bitrate);
                Ok(())
            },
        }
    }

    /// Takes over a bitrate that the coded buffer is large enough for.
    fn apply_bitrate(&mut self, bitrate: u32)
        ensures
            final(self)@ == old(self)@.at_bitrate(bitrate),
    {
        if bitrate != self.config.bitrate {
            self.reset_rate_control = true;
        }
        self.config.bitrate = bitrate;
    }

    /// Returns the configuration in effect, including a bitrate changed since opening and the render node picked when none was named.
    pub fn config(&self) -> (r: &Config)
        ensures
            *r == self@.config,
    {
        &self.config
    }

    /// Begins to encode the picture in `source`, which must be NV12 at the encoder's size.
    fn encode_surface(&mut self, source: Surface, keyframe: bool) -> (r: Submission)
        requires
            old(self)@.wf(),
            keyframe || old(self)@.config.gop != 0,
        ensures
            final(self)@.wf(),
            old(self)@.begins(final(self)@, r, source, keyframe),
    {
        let idr = self.start(keyframe);
        self.submission(source, idr)
    }

    /// Starts a frame, and a group with it where it opens one.
    fn start(&mut self, keyframe: bool) -> (idr: bool)
        requires
            old(self)@.wf(),
            keyframe || old(self)@.config.gop != 0,
        ensures
            final(self)@.wf(),
            final(self)@ == old(self)@.started(keyframe),
            idr == old(self)@.opens_group(keyframe),
            idr == (final(self)@.counter == 0),
            final(self)@.counter < final(self)@.group(),
    {
        proof {
            if self.config.gop != 0 {
                vstd::arithmetic::div_mod::lemma_mod_self_0(self.config.gop as int);
                vstd::arithmetic::div_mod::lemma_small_mod(0, self.config.gop as nat);
            }
        }
        let idr = keyframe || self.counter % self.config.gop == 0;
        if idr {
            // IDR resets the H.264 frame numbering and the reference list.
            self.counter = 0;
            self.reference = None;
        }
        idr
    }

    /// Returns the picture to encode.
    fn submission(&self, source: Surface, idr: bool) -> (r: Submission)
        requires
            self@.wf(),
            self@.counter < self@.group(),
            idr == (self@.counter == 0),
        ensures
            self@.submits(r, source, idr),
            self@.awaits(r),
    {
        // frame_num counts modulo MaxFrameNum, and the slice header carries only
        // the low bits of the picture order count; the full count goes to the
        // driver in the picture parameters.
        let meta = FrameMeta {
            poc: self.counter.wrapping_mul(2),
            frame_num: self.counter % LIMIT,
        };
        let recon: usize = (self.counter as usize) % self.recon.len();
        let buffers = self.build_buffers(idr, meta, recon);
        Submission {
            source,
            timestamp: meta.frame_num as u64,
            context: self.context,
            coded: self.coded,
            buffers,
            idr,
            meta,
            recon,
        }
    }

    /// Returns the buffers of a frame. VA-API spec buffer order: sequence,
    /// picture, slice, then packed headers, then rate-control misc params.
    fn build_buffers(&self, idr: bool, meta: FrameMeta, recon: usize) -> (r: Vec<BufferType>)
        requires
            self@.wf(),
            meta == frame_meta(self@.counter),
            recon == self@.counter % 2,
            idr == (self@.counter == 0),
        ensures
            self@.renders(r@, idr),
    {
        let (sequence, picture, slice) = self.build_parameters(idr, meta, recon);
        let mut buffers: Vec<BufferType> = Vec::new();
        buffers.push(sequence);
        buffers.push(picture);
        buffers.push(slice);
        let ghost parameters = buffers@;
        if idr {
            proof {
                stream::the_parameter_sets_can_be_written(
                    self@.pps,
                    self.config.width as int,
                    self.config.height as int,
                    self.config.framerate as int,
                    self.config.color,
                );
            }
            self.push_headers(&mut buffers);
        }
        assert(buffers@.take(3) =~= parameters);
        let ghost headed = buffers@;
        buffers.push(params::build_rate_control(self.config.bitrate, self.reset_rate_control));
        buffers.push(params::build_frame_rate(self.config.framerate));
        proof {
            assert(headed[0] == headed.take(3)[0]);
            assert(headed[1] == headed.take(3)[1]);
            assert(headed[2] == headed.take(3)[2]);
            assert(forall|i: int| 0 <= i < headed.len() ==> buffers@[i] == headed[i]);
        }
        buffers
    }

    /// Returns the sequence, picture and slice parameters of a frame.
    fn build_parameters(&self, idr: bool, meta: FrameMeta, recon: usize) -> (r: (
        BufferType,
        BufferType,
        BufferType,
    ))
        requires
            self@.wf(),
            meta == frame_meta(self@.counter),
            recon == self@.counter % 2,
        ensures
            self@.describes(r.0, r.1, r.2, idr),
    {
        let header = build_header(&self.pps, idr, meta);
        let (width, height): (u32, u32) = (self.width_mbs as u32, self.height_mbs as u32);
        assert(width * height <= 65_535 * 65_535) by (nonlinear_arith)
            requires
                width <= 65_535,
                height <= 65_535,
        ;
        let macroblocks: u32 = width * height;
        // Reference (previous reconstructed frame) for P slices: surface id + meta.
        let reference: Option<(u32, FrameMeta)> = match self.reference {
            Some((index, meta)) => Some((self.recon[index].id, meta)),
            None => None,
        };
        assert(is_frame_header(header, self@.pps, idr, meta));
        (
            params::build_enc_seq_param(&self.pps.sps, self.config.bitrate, LIMIT, 0),
            params::build_enc_pic_param(
                &self.pps,
                self.coded,
                self.recon[recon].id,
                meta,
                idr,
                reference,
            ),
            params::build_enc_slice_param(&self.pps, &header, reference, macroblocks),
        )
    }

    /// Appends the packed headers of an IDR.
    fn push_headers(&self, buffers: &mut Vec<BufferType>)
        requires
            syntax::sps_in_range(*self@.pps.sps),
            syntax::failure(syntax::sps_syntax(*self@.pps.sps)) is None,
            syntax::failure(syntax::pps_syntax(self@.pps)) is None,
        ensures
            final(buffers)@.len() == old(buffers)@.len() + 4,
            final(buffers)@.take(old(buffers)@.len() as int) == old(buffers)@,
            packs(
                final(buffers)@,
                old(buffers)@.len() as int,
                EncPackedHeaderType::Sequence,
                sps_unit(self@.pps),
            ),
            packs(
                final(buffers)@,
                old(buffers)@.len() as int + 2,
                EncPackedHeaderType::Picture,
                pps_unit(self@.pps),
            ),
    {
        if let Ok(sps) = stream::packed_sps(&self.pps.sps) {
            if let Ok(pps) = stream::packed_pps(&self.pps) {
                let (sps_param, sps_data) = params::packed_header(
                    EncPackedHeaderType::Sequence,
                    sps.as_slice(),
                );
                let (pps_param, pps_data) = params::packed_header(
                    EncPackedHeaderType::Picture,
                    pps.as_slice(),
                );
                buffers.push(sps_param);
                buffers.push(sps_data);
                buffers.push(pps_param);
                buffers.push(pps_data);
                assert(buffers@.take(old(buffers)@.len() as int) =~= old(buffers)@);
            }
        }
    }

    /// Takes what came of a submission: the segments of the coded picture,
    /// which are returned as one.
    ///
    /// # Errors
    ///
    /// Fails when the picture was not encoded or cannot be read. Where it
    /// opened a group, the next frame opens it again.
    pub fn submitted(
        &mut self,
        submission: &Submission,
        reply: Result<Vec<Vec<u8>>, SubmitError>,
    ) -> (r: Result<Vec<u8>, EncodeError>)
        requires
            old(self)@.wf(),
            old(self)@.awaits(*submission),
        ensures
            final(self)@.wf(),
            match reply {
                Err(SubmitError::Picture(err)) => {
                    &&& r == Err::<Vec<u8>, EncodeError>(EncodeError::Picture(err))
                    &&& final(self)@ == old(self)@
                },
                Err(SubmitError::ReadCoded(err)) => {
                    &&& r == Err::<Vec<u8>, EncodeError>(EncodeError::ReadCoded(err))
                    &&& final(self)@ == old(self)@
                },
                Ok(segments) => {
                    &&& r is Ok
                    &&& r->Ok_0@ == joined(segments@)
                    &&& final(self)@ == old(self)@.advanced()
                },
            },
    {
        match reply {
            Err(SubmitError::Picture(err)) => Err(EncodeError::Picture(err)),
            Err(SubmitError::ReadCoded(err)) => Err(EncodeError::ReadCoded(err)),
            Ok(segments) => {
                let bitstream = read_coded(&segments);
                self.reference = Some((submission.recon, submission.meta));
                self.counter += 1;
                self.reset_rate_control = false;
                Ok(bitstream)
            },
        }
    }
}

} // verus!
