//! What opening an encoder comes to, step by step.

use std::path::PathBuf;

use vstd::prelude::*;

use crate::display::Display;
use crate::display::Need;
use crate::display::NodeReply;
use crate::display::OpenDrmDisplayError;
use crate::display::ProbeError;
use crate::display::Surface;
use crate::dmabuf;
use crate::encode::Config;
use crate::encode::Encoder;
use crate::encode::promises;
use crate::encode::setup::AskEntrypoints;
use crate::encode::setup::AskHeaders;
use crate::encode::setup::CreateCoded;
use crate::encode::setup::CreateConfig;
use crate::encode::setup::CreateContext;
use crate::encode::setup::CreateSurface;
use crate::encode::setup::Created;
use crate::encode::setup::FindNode;
use crate::encode::setup::OpenNode;
use crate::encode::setup::Opening;
use crate::encode::setup::SetupError;
use crate::encode::setup::Tried;
use crate::encode::setup::TryNode;
use crate::encode::stream;
use crate::VaError;

verus! {

/// The two configurations differ in nothing but the device.
pub open spec fn same_but_for_device(a: Config, b: Config) -> bool {
    &&& (a.width, a.height) == (b.width, b.height)
    &&& (a.framerate, a.bitrate, a.gop) == (b.framerate, b.bitrate, b.gop)
    &&& a.color == b.color
}

/// Opening an encoder starts with the node that is named, and only where none
/// is with the search for one. What opens is asked for its entrypoints. A
/// named node that does not open is the end of it.
pub proof fn a_named_node_is_opened(
    config: Config,
    opening: Opening,
    node: OpenNode,
    reply: Result<Display, OpenDrmDisplayError>,
    opened: Result<AskEntrypoints, SetupError>,
)
    requires
        call_ensures(Encoder::new, (config,), opening),
        call_ensures(OpenNode::opened, (node, reply), opened),
    ensures
        match opening {
            Opening::Named(open) => {
                &&& config.device == Some(open.device)
                &&& same_but_for_device(open.config, config)
            },
            Opening::Unnamed(find) => {
                &&& config.device is None
                &&& find.config == config
            },
        },
        match opened {
            Ok(ask) => {
                &&& reply == Ok::<Display, OpenDrmDisplayError>(ask.target.display)
                &&& ask.target.device == node.device
                &&& ask.target.config == node.config
            },
            Err(err) => {
                &&& err matches SetupError::Open(why)
                &&& reply == Err::<Display, OpenDrmDisplayError>(why)
            },
        },
{
}

/// Where no node is named, the nodes are tried that there are, from the first
/// on, each for whether it encodes. Where there is none, that is the end of
/// it.
pub proof fn the_nodes_are_tried_in_order(
    find: FindNode,
    nodes: Vec<PathBuf>,
    listed: Result<Tried, SetupError>,
)
    requires
        call_ensures(FindNode::listed, (find, nodes), listed),
    ensures
        match listed {
            Ok(Tried::Next(next)) => {
                &&& nodes@.len() > 0
                &&& next.search.node == nodes@[0]
                &&& next.search.rest@ == nodes@.skip(1)
                &&& next.search.need == Need::Encode
                &&& next.config == find.config
            },
            Ok(_) => false,
            Err(err) => nodes@.len() == 0 && err == SetupError::NoNode,
        },
{
    if let Ok(Tried::Next(next)) = listed {
        let all = next.search.nodes();
        assert(all[0] == next.search.node);
        assert(all.skip(1) =~= next.search.rest@);
    }
}

/// A node is taken that opened and offers an entrypoint to encode with, which
/// is 6 or 8. Any other is passed over for the next, and the last of them is
/// the end of it.
pub proof fn a_node_is_taken_that_encodes(
    attempt: TryNode,
    reply: NodeReply,
    answered: Result<Tried, SetupError>,
)
    requires
        attempt.search.need == Need::Encode,
        call_ensures(TryNode::answered, (attempt, reply), answered),
    ensures
        ({
            let encodes = match reply {
                NodeReply::Opened { display, entrypoints: Ok(offered) } => offered@.contains(6)
                    || offered@.contains(8),
                _ => false,
            };
            match answered {
                Ok(Tried::Found(ask)) => {
                    &&& encodes
                    &&& reply matches NodeReply::Opened { display, entrypoints }
                        && ask.target.display == display
                    &&& ask.target.device == attempt.search.node
                    &&& ask.target.config == attempt.config
                },
                Ok(Tried::Next(next)) => {
                    &&& !encodes
                    &&& attempt.search.rest@.len() > 0
                    &&& next.search.node == attempt.search.rest@[0]
                    &&& next.search.rest@ == attempt.search.rest@.skip(1)
                    &&& next.search.need == Need::Encode
                    &&& next.config == attempt.config
                },
                Err(err) => {
                    &&& !encodes
                    &&& attempt.search.rest@.len() == 0
                    &&& err == SetupError::NoNode
                },
            }
        }),
{
    assert(attempt.search.nodes().drop_first() =~= attempt.search.rest@);
    if let Ok(Tried::Next(next)) = answered {
        let all = next.search.nodes();
        assert(all[0] == next.search.node);
        assert(all.skip(1) =~= next.search.rest@);
    }
}

/// A driver is asked for its entrypoints, then for its packed headers, and
/// is then configured: for the entrypoint that was taken, 4:2:0, a constant
/// bitrate, and those of the two lowest bits of packed headers that it takes.
pub proof fn a_driver_is_configured(
    ask: AskEntrypoints,
    entrypoints: Result<Vec<u32>, VaError>,
    asked: Result<AskHeaders, SetupError>,
    headers: AskHeaders,
    reply: Result<u32, VaError>,
    create: CreateConfig,
)
    requires
        call_ensures(AskEntrypoints::answered, (ask, entrypoints), asked),
        call_ensures(AskHeaders::answered, (headers, reply), create),
    ensures
        match asked {
            Ok(next) => {
                &&& entrypoints matches Ok(offered) && offered@.contains(next.entrypoint) && (
                next.entrypoint == 6 || next.entrypoint == 8 && !offered@.contains(6))
                &&& next.target == ask.target
            },
            Err(SetupError::Entrypoint(ProbeError::Query(err))) => entrypoints == Err::<
                Vec<u32>,
                VaError,
            >(err),
            Err(err) => {
                &&& err == SetupError::Entrypoint(ProbeError::NoEntrypoint)
                &&& entrypoints matches Ok(offered) && !offered@.contains(6) && !offered@.contains(
                    8,
                )
            },
        },
        ({
            let packed = match reply {
                Ok(value) if value < 0x8000_0000 => value % 4,
                _ => 0,
            };
            let told = create.attributes@;
            &&& create.target == headers.target
            &&& create.entrypoint == headers.entrypoint
            &&& told.len() == if packed == 0 {
                2int
            } else {
                3
            }
            &&& told[0].kind == 0 && told[0].value == 1
            &&& told[1].kind == 5 && told[1].value == 2
            &&& packed != 0 ==> told[2].kind == 10 && told[2].value == packed
        }),
{
    promises::the_packed_headers_asked_for(reply);
}

/// A configuration is followed by a context under it, and that by a coded
/// buffer with room for two seconds of the rate, and for 1.5 MB. What was
/// refused is the end of it.
pub proof fn a_context_and_a_buffer_are_created(
    config: CreateConfig,
    config_reply: Result<u32, VaError>,
    configured: Result<CreateContext, SetupError>,
    context: CreateContext,
    context_reply: Result<u32, VaError>,
    created: Result<CreateCoded, SetupError>,
)
    requires
        call_ensures(CreateConfig::created, (config, config_reply), configured),
        call_ensures(CreateContext::created, (context, context_reply), created),
    ensures
        match configured {
            Ok(next) => {
                &&& config_reply == Ok::<u32, VaError>(next.va_config)
                &&& next.target == config.target
            },
            Err(err) => {
                &&& err matches SetupError::Config(why)
                &&& config_reply == Err::<u32, VaError>(why)
            },
        },
        match created {
            Ok(next) => {
                &&& context_reply == Ok::<u32, VaError>(next.context)
                &&& next.target == context.target
                &&& next.va_config == context.va_config
                &&& next.size * 8 + 8 > 2 * context.target.config.bitrate
                &&& next.size >= 1_500_000
                &&& next.size == 1_500_000 || next.size * 8 <= 2 * context.target.config.bitrate
            },
            Err(err) => {
                &&& err matches SetupError::Context(why)
                &&& context_reply == Err::<u32, VaError>(why)
            },
        },
{
    stream::a_coded_buffer_holds_two_seconds(context.target.config.bitrate as int);
}

/// A coded buffer is followed by the surfaces, each `NV12` of the stream's
/// size and for an encoder.
pub proof fn surfaces_are_created_for_the_stream(
    coded: CreateCoded,
    reply: Result<u32, VaError>,
    created: Result<CreateSurface, SetupError>,
)
    requires
        call_ensures(CreateCoded::created, (coded, reply), created),
    ensures
        match created {
            Ok(next) => {
                &&& reply == Ok::<u32, VaError>(next.coded)
                &&& next.target == coded.target
                &&& (next.va_config, next.context) == (coded.va_config, coded.context)
                &&& next.coded_size == coded.size
                &&& next.surfaces@.len() == 0
                &&& next.request.rt_format == 1
                &&& next.request.fourcc == dmabuf::name('N', 'V', '1', '2')
                &&& next.request.width == coded.target.config.width
                &&& next.request.height == coded.target.config.height
                &&& next.request.usage == 0x2
            },
            Err(err) => {
                &&& err matches SetupError::Coded(why)
                &&& reply == Err::<u32, VaError>(why)
            },
        },
{
}

/// There are three surfaces to create. The first is the one to encode from
/// and the others are those to reconstruct in. With the last of them the
/// encoder is ready, as it was asked for, on the node that was taken, and with
/// nothing encoded. What was refused is the end of it.
pub proof fn an_encoder_is_ready_with_its_surfaces(
    create: CreateSurface,
    reply: Result<Vec<Surface>, VaError>,
    created: Result<Created, SetupError>,
)
    requires
        create.surfaces@.len() < 3,
        create.coded_size == stream::coded_bytes(create.target.config.bitrate as int),
        stream::size_in_range(
            create.target.config.width as int,
            create.target.config.height as int,
        ),
        create.target.config.framerate * 2 <= u32::MAX,
        call_ensures(CreateSurface::created, (create, reply), created),
    ensures
        match created {
            Err(SetupError::Surface(err)) => reply == Err::<Vec<Surface>, VaError>(err),
            Err(err) => err == SetupError::NoSurface && (reply matches Ok(made) && made@.len() == 0),
            Ok(Created::Next(next)) => {
                &&& create.surfaces@.len() < 2
                &&& reply matches Ok(made) && made@.len() > 0 && next.surfaces@
                    == create.surfaces@.push(made@.last())
                &&& next.request == create.request
                &&& next.target == create.target
                &&& (next.va_config, next.context) == (create.va_config, create.context)
                &&& (next.coded, next.coded_size) == (create.coded, create.coded_size)
            },
            Ok(Created::Ready(encoder)) => {
                &&& create.surfaces@.len() == 2
                &&& reply matches Ok(made) && made@.len() > 0 && encoder@.recon == seq![
                    create.surfaces@[1],
                    made@.last(),
                ]
                &&& encoder@.input == create.surfaces@[0]
                &&& encoder@.config.device == Some(create.target.device)
                &&& same_but_for_device(encoder@.config, create.target.config)
                &&& encoder@.display == create.target.display
                &&& (encoder@.va_config, encoder@.context) == (create.va_config, create.context)
                &&& (encoder@.coded, encoder@.coded_size) == (
                    create.coded,
                    create.coded_size as int,
                )
                &&& encoder@.counter == 0 && encoder@.reference is None
                &&& encoder@.processor is None && !encoder@.reset_rate_control
            },
        },
{
    if let Ok(Created::Ready(encoder)) = created {
        let made = reply->Ok_0;
        assert(encoder@.recon =~= seq![create.surfaces@[1], made@.last()]);
    }
}

} // verus!
