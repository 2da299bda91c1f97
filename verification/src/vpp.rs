//! Video post-processing: the `VAEntrypointVideoProc` pipeline.
//!
//! The one operation is a blit from one surface into another, which the video
//! processor stretches to fit the destination and converts to the destination's
//! format on the way. That covers three jobs without the pixels leaving the GPU:
//!
//! - Scaling: blit into a smaller or larger surface.
//! - Color conversion: blit a packed RGB or YUYV surface into an NV12 one, the
//!   format an encoder takes. [`Processor::blit`] takes the YUV space to write.
//! - Re-tiling: blit into a surface of the same size and format. The destination
//!   is one the driver allocated for itself, so the blit rewrites the pixels
//!   into whatever tiling the driver prefers for a fresh allocation. That is how
//!   a DMA-BUF carrying a format modifier some other API refuses to import
//!   becomes one it accepts.
//!
//! A [`Processor`] decides what to ask of the driver next. Each of its
//! functions either is done, or hands out what to ask, which the function
//! named after the answer takes back together with it.

pub mod blits;

use std::collections::HashMap;
use std::path::PathBuf;

use vstd::prelude::*;

use crate::bindings::USAGE_HINT_EXPORT;
use crate::bindings::USAGE_HINT_VPP_READ;
use crate::bindings::USAGE_HINT_VPP_WRITE;
use crate::bindings::VA_ENTRYPOINT_VIDEO_PROC;
use crate::buffer::ProcColorProperties;
use crate::buffer::ProcPipelineParameterBuffer;
use crate::color::Color;
use crate::color::Matrix;
use crate::display;
use crate::display::Display;
use crate::display::Import;
use crate::display::Need;
use crate::display::NodeReply;
use crate::display::OpenDrmDisplayError;
use crate::display::PictureError;
use crate::display::ProbeError;
use crate::display::Search;
use crate::display::SearchStep;
use crate::display::Surface;
use crate::display::SurfaceRequest;
use crate::dmabuf;
use crate::dmabuf::DmaBuf;
use crate::dmabuf::ImportError;
use crate::VaError;

verus! {

/// Why post-processing failed.
#[derive(Copy, Clone, Debug, PartialEq, Eq, Structural)]
pub enum ProcessorError {
    /// The render node did not open.
    Open(OpenDrmDisplayError),
    /// No render node post-processes video.
    NoNode,
    /// The device has no video processor, or cannot be asked.
    Attributes(VaError),
    /// The driver refused the configuration.
    Config(VaError),
    /// A surface belongs to another display.
    OtherDisplay,
    /// The driver refused a context for destinations of this size.
    Context { width: u32, height: u32, error: VaError },
    /// The driver refused the blit.
    Blit(PictureError),
    /// No VA format goes by this DRM format.
    NoFormat { drm_format: u32 },
    /// No render target holds this VA format.
    NoTargetFormat { fourcc: u32 },
    /// The destination could not be allocated.
    Allocate { width: u32, height: u32, error: VaError },
    /// The driver allocated nothing, and did not say why.
    NoSurface,
    /// The driver refused the source.
    Import(ImportError),
}

/// Checks that a driver with these entrypoints of no profile offers video
/// post-processing, which is what [`Processor::with_display`] needs of a render node.
///
/// # Errors
///
/// Fails when the driver has no `VAEntrypointVideoProc`, or cannot be asked.
pub fn probe(entrypoints: &Result<Vec<u32>, VaError>) -> (r: Result<(), ProbeError>)
    ensures
        r == Need::Process.verdict(*entrypoints),
{
    match entrypoints {
        Err(err) => Err(ProbeError::Query(*err)),
        Ok(offered) => if display::offers(offered.as_slice(), VA_ENTRYPOINT_VIDEO_PROC) {
            Ok(())
        } else {
            Err(ProbeError::NoEntrypoint)
        },
    }
}

/// What the video processor is told of one side of a blit: the color
/// standard, and the range in the color properties. Nothing where the color
/// is up to the driver.
pub open spec fn side(color: Option<Color>) -> (u32, ProcColorProperties) {
    (
        match color {
            Some(color) => color.standard(),
            None => 0,
        },
        ProcColorProperties {
            chroma_sample_location: 0,
            color_range: match color {
                Some(color) => color.range(),
                None => 0,
            },
            colour_primaries: 0,
            transfer_characteristics: 0,
            matrix_coefficients: 0,
        },
    )
}

/// Returns what the video processor is told of one side of a blit.
fn build_side(color: Option<Color>) -> (r: (u32, ProcColorProperties))
    ensures
        r == side(color),
{
    let (standard, color_range): (u32, u8) = match color {
        Some(color) => (color.va_standard(), color.va_range()),
        None => (0, 0),
    };
    (
        standard,
        ProcColorProperties {
            chroma_sample_location: 0,
            color_range,
            colour_primaries: 0,
            transfer_characteristics: 0,
            matrix_coefficients: 0,
        },
    )
}

/// A plain blit of `surface`: no regions, so the whole input is stretched
/// over the whole output; no filters, no references, no rotation or
/// mirroring; and each side's color as given, or up to the driver.
pub open spec fn plain_blit(
    surface: u32,
    input_color: Option<Color>,
    output_color: Option<Color>,
) -> ProcPipelineParameterBuffer {
    ProcPipelineParameterBuffer {
        surface,
        surface_region: None,
        surface_color_standard: side(input_color).0,
        output_region: None,
        output_background_color: 0,
        output_color_standard: side(output_color).0,
        pipeline_flags: 0,
        filter_flags: 0,
        filters: None,
        forward_references: None,
        backward_references: None,
        rotation_state: 0,
        blend_state: None,
        mirror_state: 0,
        additional_outputs: None,
        input_surface_flag: 0,
        output_surface_flag: 0,
        input_color_properties: side(input_color).1,
        output_color_properties: side(output_color).1,
        processing_mode: 0,
        output_hdr_metadata: None,
    }
}

/// Returns the parameters of a plain blit of `surface`.
pub fn pipeline(surface: u32, input_color: Option<Color>, output_color: Option<Color>) -> (r:
    ProcPipelineParameterBuffer)
    ensures
        r == plain_blit(surface, input_color, output_color),
{
    let (input_standard, input_properties) = build_side(input_color);
    let (output_standard, output_properties) = build_side(output_color);
    ProcPipelineParameterBuffer {
        surface,
        surface_region: None,
        surface_color_standard: input_standard,
        output_region: None,
        output_background_color: 0,
        output_color_standard: output_standard,
        pipeline_flags: 0,
        filter_flags: 0,
        filters: None,
        forward_references: None,
        backward_references: None,
        rotation_state: 0,
        blend_state: None,
        mirror_state: 0,
        additional_outputs: None,
        input_surface_flag: 0,
        output_surface_flag: 0,
        input_color_properties: input_properties,
        output_color_properties: output_properties,
        processing_mode: 0,
        output_hdr_metadata: None,
    }
}

/// A render node to open.
#[derive(Debug)]
pub struct Opening {
    pub device: PathBuf,
}

impl Opening {
    /// Takes the display that the node opened as.
    pub fn opened(self, reply: Result<Display, OpenDrmDisplayError>) -> (r: Result<
        Probing,
        ProcessorError,
    >)
        ensures
            r == match reply {
                Ok(display) => Ok::<Probing, ProcessorError>(Probing { display }),
                Err(err) => Err(ProcessorError::Open(err)),
            },
    {
        match reply {
            Ok(display) => Ok(Processor::with_display(display)),
            Err(err) => Err(ProcessorError::Open(err)),
        }
    }
}

/// Where the search for a device has got to.
#[derive(Debug)]
pub enum Finding {
    /// There is another node to try.
    Try(Search),
    /// This display will do.
    Found(Probing),
}

/// Where the search `step` leaves the search for a processor.
pub open spec fn finding(step: SearchStep) -> Result<Finding, ProcessorError> {
    match step {
        SearchStep::Try(search) => Ok(Finding::Try(search)),
        SearchStep::Found { display, .. } => Ok(Finding::Found(Probing { display })),
        SearchStep::Exhausted => Err(ProcessorError::NoNode),
    }
}

impl Finding {
    /// Takes where the search has got to.
    fn from_step(step: SearchStep) -> (r: Result<Self, ProcessorError>)
        ensures
            r == finding(step),
    {
        match step {
            SearchStep::Try(search) => Ok(Finding::Try(search)),
            SearchStep::Found { device: _, display } => Ok(
                Finding::Found(Processor::with_display(display)),
            ),
            SearchStep::Exhausted => Err(ProcessorError::NoNode),
        }
    }

    /// Takes what came of trying the node of `search`.
    pub fn tried(search: Search, reply: NodeReply) -> (r: Result<Self, ProcessorError>)
        ensures
            exists|step: SearchStep| #[trigger]
                finding(step) == r && if reply.passes(search.need) {
                    step == (SearchStep::Found { device: search.node, display: reply.opened() })
                } else {
                    display::searches(step, search.nodes().drop_first(), search.need)
                },
    {
        let step = search.answered(reply);
        let ghost taken = step;
        let r = Self::from_step(step);
        assert(finding(taken) == r);
        r
    }
}

/// A display to ask for `VAConfigAttribRTFormat` under `VAEntrypointVideoProc`.
///
/// Asking for the attribute is the probe: a device without the entrypoint
/// fails here, with an error that says which entrypoint was missing, and not
/// when the configuration is created.
#[derive(Copy, Clone, Debug, PartialEq, Eq, Structural)]
pub struct Probing {
    pub display: Display,
}

impl Probing {
    /// Takes the value of the attribute.
    pub fn answered(self, reply: Result<u32, VaError>) -> (r: Result<Configuring, ProcessorError>)
        ensures
            r == match reply {
                Ok(rt_format) => Ok::<Configuring, ProcessorError>(
                    Configuring { display: self.display, rt_format },
                ),
                Err(err) => Err(ProcessorError::Attributes(err)),
            },
    {
        match reply {
            Ok(rt_format) => Ok(Configuring { display: self.display, rt_format }),
            Err(err) => Err(ProcessorError::Attributes(err)),
        }
    }
}

/// A display to create a configuration on, for `VAEntrypointVideoProc` and
/// with `rt_format` for its one attribute.
#[derive(Copy, Clone, Debug, PartialEq, Eq, Structural)]
pub struct Configuring {
    pub display: Display,
    pub rt_format: u32,
}

impl Configuring {
    /// Takes the id of the configuration.
    pub fn created(self, reply: Result<u32, VaError>) -> (r: Result<Processor, ProcessorError>)
        ensures
            match reply {
                Ok(config) => r is Ok && r->Ok_0@ == (ProcessorState {
                    display: self.display,
                    config,
                    contexts: Map::empty(),
                }),
                Err(err) => r == Err::<Processor, ProcessorError>(ProcessorError::Config(err)),
            },
    {
        match reply {
            Ok(config) => Ok(
                Processor { display: self.display, contexts: HashMap::new(), config },
            ),
            Err(err) => Err(ProcessorError::Config(err)),
        }
    }
}

/// A blit to make.
#[derive(Copy, Clone, Debug, PartialEq, Eq, Structural)]
pub struct Job {
    pub input: Surface,
    pub output: Surface,
    pub input_color: Option<Color>,
    pub output_color: Option<Color>,
}

/// A context to create under the configuration `config`, for destinations of
/// the size of the job's output. It takes its destination per picture:
/// binding it to one surface would make every other destination a rebuild.
#[derive(Copy, Clone, Debug, PartialEq, Eq, Structural)]
pub struct NewContext {
    pub config: u32,
    pub job: Job,
}

/// A picture to render and to wait for: into the job's output, under
/// `context`, with one buffer of `parameters`.
#[derive(Debug)]
pub struct RunBlit {
    pub context: u32,
    pub job: Job,
    pub parameters: ProcPipelineParameterBuffer,
}

/// The picture that does `job` under `context`.
pub open spec fn run_of(context: u32, job: Job) -> RunBlit {
    RunBlit { context, job, parameters: plain_blit(job.input.id, job.input_color, job.output_color) }
}

/// Returns the picture that does `job` under `context`.
fn run_blit(context: u32, job: Job) -> (r: RunBlit)
    ensures
        r == run_of(context, job),
{
    RunBlit { context, job, parameters: pipeline(job.input.id, job.input_color, job.output_color) }
}

/// What a blit takes next.
#[derive(Debug)]
pub enum Blit {
    /// A context of its size.
    Context(NewContext),
    /// The picture.
    Run(RunBlit),
}

/// A surface to allocate, and to process `input` into.
#[derive(Copy, Clone, Debug, PartialEq, Eq, Structural)]
pub struct Allocation {
    pub request: SurfaceRequest,
    pub input: Surface,
    pub input_color: Option<Color>,
    pub output_color: Option<Color>,
}

/// A DMA-BUF to import, and to process into a surface of the same format and size.
#[derive(Copy, Clone, Debug, PartialEq, Eq, Structural)]
pub struct Retile {
    pub import: Import,
    pub fourcc: u32,
}

/// The number that the contexts for destinations of a size go by.
pub open spec fn size_key(width: u32, height: u32) -> u64 {
    (width * 0x1_0000_0000 + height) as u64
}

/// No two sizes share their contexts.
pub proof fn sizes_have_contexts_of_their_own(width: u32, height: u32, other: (u32, u32))
    requires
        size_key(width, height) == size_key(other.0, other.1),
    ensures
        (width, height) == other,
{
}

/// Returns the number that the contexts for destinations of a size go by.
fn key(width: u32, height: u32) -> (r: u64)
    ensures
        r == size_key(width, height),
{
    width as u64 * 0x1_0000_0000 + height as u64
}

/// What a [`Processor`] holds.
pub ghost struct ProcessorState {
    pub display: Display,
    /// The id of the configuration.
    pub config: u32,
    /// The ids of the contexts, by the size of their destinations.
    pub contexts: Map<u64, u32>,
}

/// A video post-processor on one device.
///
/// Holds the display, the configuration, and one processing context per
/// destination size, which are what cost something to build. A caller
/// converting every frame of a stream, or of a few renditions, pays for each
/// context once.
pub struct Processor {
    display: Display,
    contexts: HashMap<u64, u32>,
    config: u32,
}

impl View for Processor {
    type V = ProcessorState;

    closed spec fn view(&self) -> ProcessorState {
        ProcessorState { display: self.display, config: self.config, contexts: self.contexts@ }
    }
}

impl ProcessorState {
    /// The context for destinations of a size, if there is one.
    pub open spec fn context(self, width: u32, height: u32) -> Option<u32> {
        let key = size_key(width, height);
        if self.contexts.dom().contains(key) {
            Some(self.contexts[key])
        } else {
            None
        }
    }

    /// The same with a context for destinations of a size.
    pub open spec fn with_context(self, width: u32, height: u32, id: u32) -> ProcessorState {
        ProcessorState { contexts: self.contexts.insert(size_key(width, height), id), ..self }
    }

    /// The same with none for destinations of a size.
    pub open spec fn without_context(self, width: u32, height: u32) -> ProcessorState {
        ProcessorState { contexts: self.contexts.remove(size_key(width, height)), ..self }
    }

    /// Both surfaces of `job` are on this display.
    pub open spec fn owns(self, job: Job) -> bool {
        job.input.display == self.display && job.output.display == self.display
    }

    /// What `job` takes next: the picture where there is a context of its
    /// size, and the context first where there is none.
    pub open spec fn next(self, job: Job) -> Result<Blit, ProcessorError> {
        if !self.owns(job) {
            Err(ProcessorError::OtherDisplay)
        } else {
            match self.context(job.output.width, job.output.height) {
                Some(context) => Ok(Blit::Run(run_of(context, job))),
                None => Ok(Blit::Context(NewContext { config: self.config, job })),
            }
        }
    }
}

/// The surface that processing `input` goes into.
pub open spec fn allocation(
    input: Surface,
    fourcc: u32,
    size: (u32, u32),
    input_color: Option<Color>,
    output_color: Option<Color>,
) -> Result<Allocation, ProcessorError> {
    match dmabuf::target_format(fourcc) {
        None => Err(ProcessorError::NoTargetFormat { fourcc }),
        Some(rt_format) => Ok(
            Allocation {
                request: SurfaceRequest {
                    rt_format,
                    fourcc,
                    width: size.0,
                    height: size.1,
                    usage: USAGE_HINT_VPP_WRITE | USAGE_HINT_EXPORT,
                },
                input,
                input_color,
                output_color,
            },
        ),
    }
}

impl Processor {
    /// Starts opening `device` for video post-processing.
    ///
    /// `device` is a DRM render node, e.g. `/dev/dri/renderD128`. Pick the one
    /// matching the device that will consume the result: the blit only stays on
    /// the GPU when both ends are the same device.
    pub fn new(device: PathBuf) -> (r: Opening)
        ensures
            r.device == device,
    {
        Opening { device }
    }

    /// Starts opening the first of `nodes` whose driver can post-process, if any.
    ///
    /// This is what a caller with no opinion about which GPU should use. A
    /// machine with more than one wants [`Processor::new`] or
    /// [`Processor::with_display`] instead.
    pub fn open(nodes: Vec<PathBuf>) -> (r: Result<Finding, ProcessorError>)
        ensures
            nodes@.len() == 0 ==> r == Err::<Finding, ProcessorError>(ProcessorError::NoNode),
            nodes@.len() > 0 ==> {
                &&& r matches Ok(Finding::Try(search))
                &&& search.need == Need::Process
                &&& search.nodes() == nodes@
            },
    {
        Finding::from_step(display::open_first(nodes, Need::Process))
    }

    /// Starts configuring an already open display for video post-processing.
    ///
    /// Sharing the display with a decoder or an encoder is what lets a surface
    /// move between them: a surface belongs to the display that created it.
    pub fn with_display(display: Display) -> (r: Probing)
        ensures
            r == (Probing { display }),
    {
        Probing { display }
    }

    /// Returns the display this processor runs on, to share with a decoder or an encoder.
    pub fn display(&self) -> (r: Display)
        ensures
            r == self@.display,
    {
        self.display
    }

    /// Imports an exported DMA-BUF as a surface on this processor's display, without copying it.
    pub fn import(&self, buffer: DmaBuf) -> (r: Import)
        ensures
            r == (Import { display: self@.display, usage: USAGE_HINT_VPP_READ, buffer }),
    {
        Import { display: self.display, usage: USAGE_HINT_VPP_READ, buffer }
    }

    /// Blits `input` into `output`, scaling to the size of `output` and converting to its format.
    ///
    /// `input_color` and `output_color` name the YUV space on each side. Leave
    /// the input side `None` for an RGB input, which has no matrix; set the
    /// output side to the space a YUV destination should be written in. A side
    /// left `None` is up to the driver, which is right for a blit that only
    /// re-tiles, and for a scale that names neither side.
    ///
    /// # Errors
    ///
    /// Fails when either surface belongs to another display: the driver would
    /// read another display's id as one of its own.
    pub fn blit(
        &self,
        input: &Surface,
        output: &Surface,
        input_color: Option<Color>,
        output_color: Option<Color>,
    ) -> (r: Result<Blit, ProcessorError>)
        ensures
            r == self@.next(Job { input: *input, output: *output, input_color, output_color }),
    {
        if input.display != self.display || output.display != self.display {
            return Err(ProcessorError::OtherDisplay);
        }
        let job = Job { input: *input, output: *output, input_color, output_color };
        match self.context(output.width, output.height) {
            Some(context) => Ok(Blit::Run(run_blit(context, job))),
            None => Ok(Blit::Context(NewContext { config: self.config, job })),
        }
    }

    /// Takes the context that a blit had to have first, and keeps it for the
    /// next one of its size.
    pub fn context_created(&mut self, new: NewContext, reply: Result<u32, VaError>) -> (r: Result<
        RunBlit,
        ProcessorError,
    >)
        ensures
            match reply {
                Ok(context) => {
                    &&& r == Ok::<RunBlit, ProcessorError>(run_of(context, new.job))
                    &&& final(self)@ == old(self)@.with_context(
                        new.job.output.width,
                        new.job.output.height,
                        context,
                    )
                },
                Err(error) => {
                    &&& r == Err::<RunBlit, ProcessorError>(
                        ProcessorError::Context {
                            width: new.job.output.width,
                            height: new.job.output.height,
                            error,
                        },
                    )
                    &&& final(self)@ == old(self)@
                },
            },
    {
        broadcast use vstd::std_specs::hash::group_hash_axioms;

        let (width, height): (u32, u32) = (new.job.output.width, new.job.output.height);
        match reply {
            Ok(context) => {
                self.contexts.insert(key(width, height), context);
                Ok(run_blit(context, new.job))
            },
            Err(error) => Err(ProcessorError::Context { width, height, error }),
        }
    }

    /// Takes what came of the picture of a blit. One that failed half way can
    /// leave its context mid-picture, so the next blit of this size starts on
    /// a fresh one.
    pub fn blitted(&mut self, run: &RunBlit, reply: Result<(), PictureError>) -> (r: Result<
        (),
        ProcessorError,
    >)
        ensures
            match reply {
                Ok(()) => {
                    &&& r == Ok::<(), ProcessorError>(())
                    &&& final(self)@ == old(self)@
                },
                Err(err) => {
                    &&& r == Err::<(), ProcessorError>(ProcessorError::Blit(err))
                    &&& final(self)@ == old(self)@.without_context(
                        run.job.output.width,
                        run.job.output.height,
                    )
                },
            },
    {
        broadcast use vstd::std_specs::hash::group_hash_axioms;

        match reply {
            Ok(()) => Ok(()),
            Err(err) => {
                self.contexts.remove(&key(run.job.output.width, run.job.output.height));
                Err(ProcessorError::Blit(err))
            },
        }
    }

    /// Blits `input` into a new driver-allocated surface of `fourcc`, `width` and `height`.
    ///
    /// The destination is hinted as post-processing output that will be
    /// exported. See [`blit`](Self::blit) for the colors.
    ///
    /// # Errors
    ///
    /// Fails for a format with no render target mapping.
    pub fn process(
        &self,
        input: &Surface,
        fourcc: u32,
        size: (u32, u32),
        input_color: Option<Color>,
        output_color: Option<Color>,
    ) -> (r: Result<Allocation, ProcessorError>)
        ensures
            r == allocation(*input, fourcc, size, input_color, output_color),
    {
        match dmabuf::rt_format(fourcc) {
            None => Err(ProcessorError::NoTargetFormat { fourcc }),
            Some(rt_format) => Ok(
                Allocation {
                    request: SurfaceRequest {
                        rt_format,
                        fourcc,
                        width: size.0,
                        height: size.1,
                        usage: USAGE_HINT_VPP_WRITE | USAGE_HINT_EXPORT,
                    },
                    input: *input,
                    input_color,
                    output_color,
                },
            ),
        }
    }

    /// Takes the surfaces that were allocated, and returns the one to blit
    /// into, with what the blit takes next.
    ///
    /// # Errors
    ///
    /// Fails when the destination was not allocated, and as [`blit`](Self::blit) does.
    pub fn allocated(&self, allocation: Allocation, reply: Result<Vec<Surface>, VaError>) -> (r:
        Result<(Surface, Blit), ProcessorError>)
        ensures
            match reply {
                Err(error) => r == Err::<(Surface, Blit), ProcessorError>(
                    ProcessorError::Allocate {
                        width: allocation.request.width,
                        height: allocation.request.height,
                        error,
                    },
                ),
                Ok(surfaces) => if surfaces@.len() == 0 {
                    r == Err::<(Surface, Blit), ProcessorError>(ProcessorError::NoSurface)
                } else {
                    let output = surfaces@.last();
                    r == match self@.next(
                        Job {
                            input: allocation.input,
                            output,
                            input_color: allocation.input_color,
                            output_color: allocation.output_color,
                        },
                    ) {
                        Ok(blit) => Ok::<(Surface, Blit), ProcessorError>((output, blit)),
                        Err(err) => Err(err),
                    }
                },
            },
    {
        match reply {
            Err(error) => Err(
                ProcessorError::Allocate {
                    width: allocation.request.width,
                    height: allocation.request.height,
                    error,
                },
            ),
            Ok(surfaces) => {
                let mut surfaces = surfaces;
                match surfaces.pop() {
                    None => Err(ProcessorError::NoSurface),
                    Some(output) => match self.blit(
                        &allocation.input,
                        &output,
                        allocation.input_color,
                        allocation.output_color,
                    ) {
                        Ok(blit) => Ok((output, blit)),
                        Err(err) => Err(err),
                    },
                }
            },
        }
    }

    /// Imports `buffer` and blits it into a driver-allocated surface of the same format and size.
    ///
    /// This is the whole re-tile. Export the result and read the modifier off
    /// the object to see what the driver chose.
    ///
    /// # Errors
    ///
    /// Fails for a format with no VA name.
    pub fn retile(&self, buffer: DmaBuf) -> (r: Result<Retile, ProcessorError>)
        ensures
            r == match dmabuf::va_fourcc(buffer.drm_format) {
                Some(fourcc) => Ok::<Retile, ProcessorError>(
                    Retile {
                        import: Import {
                            display: self@.display,
                            usage: USAGE_HINT_VPP_READ,
                            buffer,
                        },
                        fourcc,
                    },
                ),
                None => Err(ProcessorError::NoFormat { drm_format: buffer.drm_format }),
            },
    {
        match buffer.fourcc() {
            Some(fourcc) => Ok(Retile { import: self.import(buffer), fourcc }),
            None => Err(ProcessorError::NoFormat { drm_format: buffer.drm_format }),
        }
    }

    /// Takes the surface that the buffer of a re-tile was imported as.
    ///
    /// # Errors
    ///
    /// Fails when the driver refused it, and as [`process`](Self::process) does.
    pub fn retile_imported(&self, retile: Retile, reply: Result<Surface, ImportError>) -> (r:
        Result<Allocation, ProcessorError>)
        ensures
            r == match reply {
                Ok(input) => allocation(
                    input,
                    retile.fourcc,
                    (input.width, input.height),
                    None,
                    None,
                ),
                Err(err) => Err(ProcessorError::Import(err)),
            },
    {
        match reply {
            Ok(input) => self.process(
                &input,
                retile.fourcc,
                (input.width, input.height),
                None,
                None,
            ),
            Err(err) => Err(ProcessorError::Import(err)),
        }
    }

    /// Returns the processing context for a destination of this size, if
    /// there is one already.
    fn context(&self, width: u32, height: u32) -> (r: Option<u32>)
        ensures
            r == self@.context(width, height),
    {
        broadcast use vstd::std_specs::hash::group_hash_axioms;

        match self.contexts.get(&key(width, height)) {
            Some(context) => Some(*context),
            None => None,
        }
    }
}

/// A blit reads all of its input and fills all of its output, and each side
/// is labelled with its own color: BT.601 is 1 and BT.709 is 2, the reduced
/// range is 1 and the full one 2, and a side without a color is left to the
/// driver. Nothing else is done to the picture.
pub proof fn a_blit_labels_each_side_with_its_own_color(context: u32, job: Job)
    ensures
        ({
            let run = run_of(context, job);
            let told = run.parameters;
            &&& run.context == context
            &&& run.job == job
            &&& told.surface == job.input.id
            &&& told.surface_region is None && told.output_region is None
            &&& (told.surface_color_standard == 1) == (job.input_color matches Some(color)
                && color.matrix == Matrix::Bt601)
            &&& (told.surface_color_standard == 2) == (job.input_color matches Some(color)
                && color.matrix == Matrix::Bt709)
            &&& (told.surface_color_standard == 0) == (job.input_color is None)
            &&& (told.output_color_standard == 1) == (job.output_color matches Some(color)
                && color.matrix == Matrix::Bt601)
            &&& (told.output_color_standard == 2) == (job.output_color matches Some(color)
                && color.matrix == Matrix::Bt709)
            &&& (told.output_color_standard == 0) == (job.output_color is None)
            &&& (told.input_color_properties.color_range == 1) == (job.input_color matches Some(
                color,
            ) && !color.full_range)
            &&& (told.input_color_properties.color_range == 2) == (job.input_color matches Some(
                color,
            ) && color.full_range)
            &&& (told.input_color_properties.color_range == 0) == (job.input_color is None)
            &&& (told.output_color_properties.color_range == 1) == (job.output_color matches Some(
                color,
            ) && !color.full_range)
            &&& (told.output_color_properties.color_range == 2) == (job.output_color matches Some(
                color,
            ) && color.full_range)
            &&& (told.output_color_properties.color_range == 0) == (job.output_color is None)
        }),
        ({
            let told = run_of(context, job).parameters;
            let (input, output) = (told.input_color_properties, told.output_color_properties);
            &&& told.output_background_color == 0
            &&& told.pipeline_flags == 0 && told.filter_flags == 0 && told.processing_mode == 0
            &&& told.filters is None && told.additional_outputs is None
            &&& told.forward_references is None && told.backward_references is None
            &&& told.rotation_state == 0 && told.mirror_state == 0 && told.blend_state is None
            &&& told.input_surface_flag == 0 && told.output_surface_flag == 0
            &&& told.output_hdr_metadata is None
            &&& input.chroma_sample_location == 0 && output.chroma_sample_location == 0
            &&& input.colour_primaries == 0 && output.colour_primaries == 0
            &&& input.transfer_characteristics == 0 && output.transfer_characteristics == 0
            &&& input.matrix_coefficients == 0 && output.matrix_coefficients == 0
        }),
{
}

/// A blit is refused exactly where one of its surfaces is on another display.
/// One that is not refused is of the surfaces and the colors that were given,
/// under a context for the size of its output and the processor's own
/// configuration.
pub proof fn a_blit_is_of_what_was_given(state: ProcessorState, job: Job)
    ensures
        match state.next(job) {
            Err(err) => err == ProcessorError::OtherDisplay && (job.input.display != state.display
                || job.output.display != state.display),
            Ok(Blit::Context(new)) => {
                &&& job.input.display == state.display && job.output.display == state.display
                &&& new.config == state.config
                &&& new.job == job
                &&& state.context(job.output.width, job.output.height) is None
            },
            Ok(Blit::Run(run)) => {
                &&& job.input.display == state.display && job.output.display == state.display
                &&& run.job == job
                &&& run.parameters.surface == job.input.id
                &&& state.context(job.output.width, job.output.height) == Some(run.context)
            },
        },
{
}

/// A context that was created is the one for its size, until a blit under it
/// fails, and creating it changes no other.
pub proof fn a_context_is_that_of_its_size(
    state: ProcessorState,
    width: u32,
    height: u32,
    id: u32,
    other: (u32, u32),
)
    ensures
        state.with_context(width, height, id).context(width, height) == Some(id),
        state.without_context(width, height).context(width, height) is None,
        other != (width, height) ==> state.with_context(width, height, id).context(
            other.0,
            other.1,
        ) == state.context(other.0, other.1),
        state.with_context(width, height, id).display == state.display,
        state.with_context(width, height, id).config == state.config,
        state.without_context(width, height).display == state.display,
        state.without_context(width, height).config == state.config,
{
    if size_key(width, height) == size_key(other.0, other.1) {
        sizes_have_contexts_of_their_own(width, height, other);
    }
}

/// Processing goes into a surface of the size and the format that were asked
/// for, which the video processor may write to and which can be exported.
/// The render target is 4:2:0 for `NV12`, 4:2:2 for `YUY2`, and of 32 bits for
/// packed RGB; no other format has one.
pub proof fn processing_goes_where_it_was_asked_to(
    input: Surface,
    fourcc: u32,
    size: (u32, u32),
    input_color: Option<Color>,
    output_color: Option<Color>,
)
    ensures
        match allocation(input, fourcc, size, input_color, output_color) {
            Ok(allocation) => {
                &&& allocation.input == input
                &&& allocation.input_color == input_color
                &&& allocation.output_color == output_color
                &&& allocation.request.fourcc == fourcc
                &&& (allocation.request.width, allocation.request.height) == size
                &&& allocation.request.usage == 0x28
                &&& allocation.request.rt_format == 0x1 ==> fourcc == dmabuf::name(
                    'N',
                    'V',
                    '1',
                    '2',
                )
                &&& allocation.request.rt_format == 0x2 ==> fourcc == dmabuf::name(
                    'Y',
                    'U',
                    'Y',
                    '2',
                )
                &&& allocation.request.rt_format == 0x2_0000 ==> dmabuf::packed_rgb(fourcc)
                &&& allocation.request.rt_format == 0x1 || allocation.request.rt_format == 0x2
                    || allocation.request.rt_format == 0x2_0000
            },
            Err(err) => {
                &&& err == ProcessorError::NoTargetFormat { fourcc }
                &&& fourcc != dmabuf::name('N', 'V', '1', '2')
                &&& fourcc != dmabuf::name('Y', 'U', 'Y', '2')
                &&& !dmabuf::packed_rgb(fourcc)
            },
        },
{
    assert(USAGE_HINT_VPP_WRITE | USAGE_HINT_EXPORT == 0x28) by (bit_vector);
    dmabuf::the_names_of_the_formats(0, fourcc);
}

/// A blit of a size that a context was created for needs no other: the
/// context is used again, until a blit under it fails.
pub proof fn a_context_is_created_once(state: ProcessorState, context: u32, job: Job, later: Job)
    requires
        state.owns(later),
        later.output.width == job.output.width,
        later.output.height == job.output.height,
    ensures
        state.with_context(job.output.width, job.output.height, context).next(later) == Ok::<
            Blit,
            ProcessorError,
        >(Blit::Run(run_of(context, later))),
        state.without_context(job.output.width, job.output.height).next(later) == Ok::<
            Blit,
            ProcessorError,
        >(Blit::Context(NewContext { config: state.config, job: later })),
{
}

/// A failed blit costs the contexts of other sizes nothing.
pub proof fn a_failed_blit_leaves_other_sizes_alone(
    state: ProcessorState,
    width: u32,
    height: u32,
    other: (u32, u32),
)
    requires
        other != (width, height),
    ensures
        state.without_context(width, height).context(other.0, other.1) == state.context(
            other.0,
            other.1,
        ),
{
    if size_key(width, height) == size_key(other.0, other.1) {
        sizes_have_contexts_of_their_own(width, height, other);
    }
}

/// A re-tile goes into a surface of the format and the size of its source,
/// for every format that can be imported.
pub proof fn a_retile_keeps_format_and_size(drm_format: u32, input: Surface)
    requires
        dmabuf::va_fourcc(drm_format) is Some,
    ensures
        ({
            let fourcc = dmabuf::va_fourcc(drm_format)->0;
            let allocation = allocation(input, fourcc, (input.width, input.height), None, None);
            &&& allocation is Ok
            &&& allocation->Ok_0.request.fourcc == fourcc
            &&& allocation->Ok_0.request.width == input.width
            &&& allocation->Ok_0.request.height == input.height
        }),
{
}

} // verus!
