//! Opening an encoder, from its configuration to the first frame.
//!
//! Each type here is something to ask of the system or of the driver, and
//! its one function takes the answer.

use std::path::PathBuf;

use vstd::prelude::*;

use crate::bindings::VA_CONFIG_ATTRIB_ENC_PACKED_HEADERS;
use crate::bindings::VA_CONFIG_ATTRIB_RATE_CONTROL;
use crate::bindings::VA_CONFIG_ATTRIB_RT_FORMAT;
use crate::bindings::VA_RC_CBR;
use crate::bindings::VA_RT_FORMAT_YUV420;
use crate::display;
use crate::display::Display;
use crate::display::Need;
use crate::display::NodeReply;
use crate::display::OpenDrmDisplayError;
use crate::display::ProbeError;
use crate::display::Search;
use crate::display::SearchStep;
use crate::display::Surface;
use crate::display::SurfaceRequest;
use crate::encode;
use crate::encode::Config;
use crate::encode::Encoder;
use crate::encode::EncoderState;
use crate::encode::stream;
use crate::VaError;

verus! {

/// Why an encoder did not open.
#[derive(Copy, Clone, Debug, PartialEq, Eq, Structural)]
pub enum SetupError {
    /// The named node did not open.
    Open(OpenDrmDisplayError),
    /// No render node encodes H.264.
    NoNode,
    /// The device does not encode H.264, or cannot be asked.
    Entrypoint(ProbeError),
    /// The driver refused the configuration.
    Config(VaError),
    /// The driver refused the context.
    Context(VaError),
    /// The driver refused the coded buffer.
    Coded(VaError),
    /// The driver refused a surface.
    Surface(VaError),
    /// The driver allocated no surface, and did not say why.
    NoSurface,
}

/// One attribute of a configuration.
#[derive(Copy, Clone, Debug, PartialEq, Eq, Structural)]
pub struct ConfigAttribute {
    pub kind: u32,
    pub value: u32,
}

/// An open device to set an encoder up on. The configuration names none
/// until the encoder is ready.
#[derive(Debug)]
pub struct Target {
    pub config: Config,
    pub device: PathBuf,
    pub display: Display,
}

/// What to open.
#[derive(Debug)]
pub enum Opening {
    /// The node that the configuration names, and no other.
    Named(OpenNode),
    /// The first that encodes H.264.
    Unnamed(FindNode),
}

/// A render node to open.
#[derive(Debug)]
pub struct OpenNode {
    pub config: Config,
    pub device: PathBuf,
}

/// The render nodes there are, to list.
#[derive(Debug)]
pub struct FindNode {
    pub config: Config,
}

/// A render node to try: to open, and to ask for its H.264 Main entrypoints.
#[derive(Debug)]
pub struct TryNode {
    pub config: Config,
    pub search: Search,
}

/// What came of trying a render node.
#[derive(Debug)]
pub enum Tried {
    /// There is another to try.
    Next(TryNode),
    /// This one encodes H.264.
    Found(AskEntrypoints),
}

/// A display to ask for its H.264 Main entrypoints.
#[derive(Debug)]
pub struct AskEntrypoints {
    pub target: Target,
}

/// A display to ask for the packed headers that `entrypoint` takes.
#[derive(Debug)]
pub struct AskHeaders {
    pub target: Target,
    pub entrypoint: u32,
}

/// A configuration of H.264 Main and `entrypoint` to create.
#[derive(Debug)]
pub struct CreateConfig {
    pub target: Target,
    pub entrypoint: u32,
    pub attributes: Vec<ConfigAttribute>,
}

/// A context of the encoder's size to create, bound to no render targets.
#[derive(Debug)]
pub struct CreateContext {
    pub target: Target,
    pub va_config: u32,
}

/// A coded buffer to create.
#[derive(Debug)]
pub struct CreateCoded {
    pub target: Target,
    pub va_config: u32,
    pub context: u32,
    pub size: usize,
}

/// A surface to create: first the one to encode from, then those to
/// reconstruct in.
#[derive(Debug)]
pub struct CreateSurface {
    pub target: Target,
    pub va_config: u32,
    pub context: u32,
    pub coded: u32,
    pub coded_size: usize,
    /// Those that are there.
    pub surfaces: Vec<Surface>,
    pub request: SurfaceRequest,
}

/// What came of a surface.
pub enum Created {
    /// There is another to create.
    Next(CreateSurface),
    /// All are there.
    Ready(Encoder),
}

/// The surfaces of an encoder: one to encode from, two to reconstruct in.
pub const SURFACES: usize = 3;

/// `config` without its device.
pub open spec fn unnamed(config: Config) -> Config {
    Config { device: None, ..config }
}

/// What opening an encoder starts with: the named node, if one is named.
pub open spec fn opening(config: Config) -> Opening {
    match config.device {
        Some(device) => Opening::Named(OpenNode { config: unnamed(config), device }),
        None => Opening::Unnamed(FindNode { config }),
    }
}

impl Encoder {
    /// Starts opening [`Config::device`], or the first render node that
    /// encodes H.264, to set up an encode session for `config`.
    ///
    /// What follows fails when libva cannot be loaded, when the named node
    /// cannot be opened or does not encode H.264 (a named node is never
    /// swapped for another), when no node encodes H.264, and when the driver
    /// refuses the session.
    pub fn new(config: Config) -> (r: Opening)
        ensures
            r == opening(config),
    {
        let mut config = config;
        match config.device.take() {
            Some(device) => Opening::Named(OpenNode { config, device }),
            None => Opening::Unnamed(FindNode { config }),
        }
    }
}

impl OpenNode {
    /// Takes the display that the named node opened as.
    pub fn opened(self, reply: Result<Display, OpenDrmDisplayError>) -> (r: Result<
        AskEntrypoints,
        SetupError,
    >)
        ensures
            r == match reply {
                Ok(display) => Ok::<AskEntrypoints, SetupError>(
                    AskEntrypoints {
                        target: Target { config: self.config, device: self.device, display },
                    },
                ),
                Err(err) => Err(SetupError::Open(err)),
            },
    {
        match reply {
            Ok(display) => Ok(
                AskEntrypoints {
                    target: Target { config: self.config, device: self.device, display },
                },
            ),
            Err(err) => Err(SetupError::Open(err)),
        }
    }
}

/// `r` is where the search `step` leaves the opening of `config`.
pub open spec fn tried(step: SearchStep, config: Config) -> Result<Tried, SetupError> {
    match step {
        SearchStep::Try(search) => Ok(Tried::Next(TryNode { config, search })),
        SearchStep::Found { device, display } => Ok(
            Tried::Found(AskEntrypoints { target: Target { config, device, display } }),
        ),
        SearchStep::Exhausted => Err(SetupError::NoNode),
    }
}

/// Takes where the search has got to.
fn take_step(step: SearchStep, config: Config) -> (r: Result<Tried, SetupError>)
    ensures
        r == tried(step, config),
{
    match step {
        SearchStep::Try(search) => Ok(Tried::Next(TryNode { config, search })),
        SearchStep::Found { device, display } => Ok(
            Tried::Found(AskEntrypoints { target: Target { config, device, display } }),
        ),
        SearchStep::Exhausted => Err(SetupError::NoNode),
    }
}

impl FindNode {
    /// Takes the render nodes there are, in the order to try them in.
    pub fn listed(self, nodes: Vec<PathBuf>) -> (r: Result<Tried, SetupError>)
        ensures
            nodes@.len() == 0 ==> r == Err::<Tried, SetupError>(SetupError::NoNode),
            nodes@.len() > 0 ==> {
                &&& r matches Ok(Tried::Next(next))
                &&& next.config == self.config
                &&& next.search.need == Need::Encode
                &&& next.search.nodes() == nodes@
            },
    {
        take_step(display::open_first(nodes, Need::Encode), self.config)
    }
}

impl TryNode {
    /// Takes what came of trying the node at the head of the search.
    pub fn answered(self, reply: NodeReply) -> (r: Result<Tried, SetupError>)
        ensures
            exists|step: SearchStep| #[trigger]
                tried(step, self.config) == r && if reply.passes(self.search.need) {
                    step == (SearchStep::Found {
                        device: self.search.node,
                        display: reply.opened(),
                    })
                } else {
                    display::searches(step, self.search.nodes().drop_first(), self.search.need)
                },
    {
        let TryNode { config, search } = self;
        let step = search.answered(reply);
        let ghost taken = step;
        let r = take_step(step, config);
        assert(tried(taken, self.config) == r);
        r
    }
}

impl AskEntrypoints {
    /// Takes the entrypoints.
    pub fn answered(self, reply: Result<Vec<u32>, VaError>) -> (r: Result<AskHeaders, SetupError>)
        ensures
            r == match encode::entrypoint_for(reply) {
                Ok(entrypoint) => Ok::<AskHeaders, SetupError>(
                    AskHeaders { target: self.target, entrypoint },
                ),
                Err(err) => Err(SetupError::Entrypoint(err)),
            },
    {
        match encode::encode_entrypoint(&reply) {
            Ok(entrypoint) => Ok(AskHeaders { target: self.target, entrypoint }),
            Err(err) => Err(SetupError::Entrypoint(err)),
        }
    }
}

/// The attributes of the configuration: 4:2:0, constant bitrate, and packed
/// headers where the driver takes any.
///
/// The SPS and PPS go out as packed headers, so that the VUI (color, frame
/// buffering) and the level are the encoder's own. A driver that follows the
/// spec writes its own headers unless the configuration asks.
pub open spec fn attributes(packed: u32) -> Seq<ConfigAttribute> {
    let fixed = seq![
        ConfigAttribute { kind: VA_CONFIG_ATTRIB_RT_FORMAT, value: VA_RT_FORMAT_YUV420 },
        ConfigAttribute { kind: VA_CONFIG_ATTRIB_RATE_CONTROL, value: VA_RC_CBR },
    ];
    if packed != 0 {
        fixed.push(ConfigAttribute { kind: VA_CONFIG_ATTRIB_ENC_PACKED_HEADERS, value: packed })
    } else {
        fixed
    }
}

impl AskHeaders {
    /// Takes the value of the attribute for the packed headers.
    pub fn answered(self, reply: Result<u32, VaError>) -> (r: CreateConfig)
        ensures
            r.target == self.target,
            r.entrypoint == self.entrypoint,
            r.attributes@ == attributes(encode::packed_kinds(reply)),
    {
        let mut attributes: Vec<ConfigAttribute> = Vec::new();
        attributes.push(
            ConfigAttribute { kind: VA_CONFIG_ATTRIB_RT_FORMAT, value: VA_RT_FORMAT_YUV420 },
        );
        attributes.push(ConfigAttribute { kind: VA_CONFIG_ATTRIB_RATE_CONTROL, value: VA_RC_CBR });
        let packed: u32 = encode::packed_headers(reply);
        if packed != 0 {
            attributes.push(
                ConfigAttribute { kind: VA_CONFIG_ATTRIB_ENC_PACKED_HEADERS, value: packed },
            );
        }
        CreateConfig { target: self.target, entrypoint: self.entrypoint, attributes }
    }
}

impl CreateConfig {
    /// Takes the id of the configuration.
    pub fn created(self, reply: Result<u32, VaError>) -> (r: Result<CreateContext, SetupError>)
        ensures
            r == match reply {
                Ok(va_config) => Ok::<CreateContext, SetupError>(
                    CreateContext { target: self.target, va_config },
                ),
                Err(err) => Err(SetupError::Config(err)),
            },
    {
        match reply {
            Ok(va_config) => Ok(CreateContext { target: self.target, va_config }),
            Err(err) => Err(SetupError::Config(err)),
        }
    }
}

impl CreateContext {
    /// Takes the id of the context.
    pub fn created(self, reply: Result<u32, VaError>) -> (r: Result<CreateCoded, SetupError>)
        ensures
            r == match reply {
                Ok(context) => Ok::<CreateCoded, SetupError>(
                    CreateCoded {
                        target: self.target,
                        va_config: self.va_config,
                        context,
                        size: stream::coded_bytes(self.target.config.bitrate as int) as usize,
                    },
                ),
                Err(err) => Err(SetupError::Context(err)),
            },
    {
        match reply {
            Ok(context) => {
                let size: usize = stream::coded_size(self.target.config.bitrate);
                Ok(
                    CreateCoded {
                        target: self.target,
                        va_config: self.va_config,
                        context,
                        size,
                    },
                )
            },
            Err(err) => Err(SetupError::Context(err)),
        }
    }
}

impl CreateCoded {
    /// Takes the id of the coded buffer.
    pub fn created(self, reply: Result<u32, VaError>) -> (r: Result<CreateSurface, SetupError>)
        ensures
            match reply {
                Ok(coded) => {
                    &&& r is Ok
                    &&& r->Ok_0.target == self.target
                    &&& r->Ok_0.va_config == self.va_config
                    &&& r->Ok_0.context == self.context
                    &&& r->Ok_0.coded == coded
                    &&& r->Ok_0.coded_size == self.size
                    &&& r->Ok_0.surfaces@.len() == 0
                    &&& r->Ok_0.request == encode::encode_surface_request(self.target.config)
                },
                Err(err) => r == Err::<CreateSurface, SetupError>(SetupError::Coded(err)),
            },
    {
        match reply {
            Ok(coded) => {
                let request = encode::make_surface(&self.target.config);
                Ok(
                    CreateSurface {
                        target: self.target,
                        va_config: self.va_config,
                        context: self.context,
                        coded,
                        coded_size: self.size,
                        surfaces: Vec::new(),
                        request,
                    },
                )
            },
            Err(err) => Err(SetupError::Coded(err)),
        }
    }
}

impl CreateSurface {
    /// `encoder` is freshly set up on `surfaces`: nothing encoded yet, no
    /// reference, no video processor.
    pub open spec fn sets_up(self, encoder: EncoderState, surfaces: Seq<Surface>) -> bool {
        &&& encoder.config == (Config {
            device: Some(self.target.device),
            ..self.target.config
        })
        &&& encoder.input == surfaces[0]
        &&& encoder.recon == surfaces.subrange(1, 3)
        &&& encoder.reference is None
        &&& encoder.counter == 0
        &&& encoder.processor is None
        &&& !encoder.reset_rate_control
        &&& encoder.coded == self.coded
        &&& encoder.coded_size == self.coded_size
        &&& encoder.context == self.context
        &&& encoder.va_config == self.va_config
        &&& encoder.display == self.target.display
    }

    /// This is the last of the surfaces.
    pub open spec fn is_last(self) -> bool {
        self.surfaces@.len() == SURFACES - 1
    }

    /// Takes the surface.
    pub fn created(self, reply: Result<Vec<Surface>, VaError>) -> (r: Result<Created, SetupError>)
        requires
            self.surfaces@.len() < SURFACES,
            self.coded_size == stream::coded_bytes(self.target.config.bitrate as int),
            self.is_last() && reply is Ok && reply->Ok_0@.len() > 0 ==> {
                &&& stream::size_in_range(
                    self.target.config.width as int,
                    self.target.config.height as int,
                )
                &&& self.target.config.framerate * 2 <= u32::MAX
            },
        ensures
            match reply {
                Err(err) => r == Err::<Created, SetupError>(SetupError::Surface(err)),
                Ok(made) => if made@.len() == 0 {
                    r == Err::<Created, SetupError>(SetupError::NoSurface)
                } else {
                    let surfaces = self.surfaces@.push(made@.last());
                    if self.is_last() {
                        &&& r matches Ok(Created::Ready(encoder))
                        &&& encoder@.wf()
                        &&& self.sets_up(encoder@, surfaces)
                    } else {
                        &&& r matches Ok(Created::Next(next))
                        &&& next.surfaces@ == surfaces
                        &&& next.target == self.target
                        &&& next.va_config == self.va_config
                        &&& next.context == self.context
                        &&& next.coded == self.coded
                        &&& next.coded_size == self.coded_size
                        &&& next.request == self.request
                    }
                },
            },
    {
        let mut made = match reply {
            Ok(made) => made,
            Err(err) => {
                return Err(SetupError::Surface(err));
            },
        };
        let surface = match made.pop() {
            Some(surface) => surface,
            None => {
                return Err(SetupError::NoSurface);
            },
        };
        let CreateSurface { target, va_config, context, coded, coded_size, surfaces, request } =
            self;
        if surfaces.len() < SURFACES - 1 {
            let mut surfaces = surfaces;
            surfaces.push(surface);
            return Ok(
                Created::Next(
                    CreateSurface {
                        target,
                        va_config,
                        context,
                        coded,
                        coded_size,
                        surfaces,
                        request,
                    },
                ),
            );
        }
        let Target { config, device, display } = target;
        let pps = stream::build_sps_pps(&config);
        let width_mbs: u16 = pps.sps.pic_width_in_mbs_minus1 + 1;
        let height_mbs: u16 = pps.sps.pic_height_in_map_units_minus1 + 1;
        let mut recon: Vec<Surface> = Vec::new();
        recon.push(surfaces[1]);
        recon.push(surface);
        assert(recon@ =~= surfaces@.push(surface).subrange(1, 3));
        let encoder = Encoder {
            config: Config { device: Some(device), ..config },
            pps,
            width_mbs,
            height_mbs,
            input: surfaces[0],
            recon,
            reference: None,
            counter: 0,
            processor: None,
            reset_rate_control: false,
            coded,
            coded_size,
            context,
            va_config,
            display,
        };
        Ok(Created::Ready(encoder))
    }
}

/// A node that the configuration names is the one to open, and only where it
/// names none are others looked for.
pub proof fn a_named_node_is_never_swapped(config: Config)
    ensures
        opening(config) is Named <==> config.device is Some,
        opening(config) matches Opening::Named(open) ==> {
            &&& config.device == Some(open.device)
            &&& open.config == unnamed(config)
        },
{
}

} // verus!
