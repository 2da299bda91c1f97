//! What the operations of a video processor come to.

use std::path::PathBuf;

use vstd::prelude::*;

use crate::buffer::ProcPipelineParameterBuffer;
use crate::color::Color;
use crate::color::Matrix;
use crate::display::Display;
use crate::display::Import;
use crate::display::Need;
use crate::display::NodeReply;
use crate::display::OpenDrmDisplayError;
use crate::display::PictureError;
use crate::display::ProbeError;
use crate::display::Search;
use crate::display::Surface;
use crate::dmabuf;
use crate::dmabuf::DmaBuf;
use crate::dmabuf::ImportError;
use crate::vpp;
use crate::vpp::Allocation;
use crate::vpp::Blit;
use crate::vpp::Configuring;
use crate::vpp::Finding;
use crate::vpp::NewContext;
use crate::vpp::Opening;
use crate::vpp::Probing;
use crate::vpp::Processor;
use crate::vpp::ProcessorError;
use crate::vpp::ProcessorState;
use crate::vpp::Retile;
use crate::vpp::RunBlit;
use crate::VaError;

verus! {

/// A driver will do that offers the entrypoint 10.
pub proof fn a_driver_that_processes_will_do(
    reply: &Result<Vec<u32>, VaError>,
    probed: Result<(), ProbeError>,
)
    requires
        call_ensures(vpp::probe, (reply,), probed),
    ensures
        match probed {
            Ok(()) => *reply matches Ok(offered) && offered@.contains(10),
            Err(ProbeError::Query(err)) => *reply == Err::<Vec<u32>, VaError>(err),
            Err(ProbeError::NoEntrypoint) => *reply matches Ok(offered) && !offered@.contains(10),
        },
{
}

/// `told` is of the surface `id` as a whole, into all of the output. Each
/// side is labelled with its own color: BT.601 is 1 and BT.709 is 2, the
/// reduced range is 1 and the full one 2, and what has no color is 0.
pub open spec fn is_told(
    told: ProcPipelineParameterBuffer,
    id: u32,
    input_color: Option<Color>,
    output_color: Option<Color>,
) -> bool {
    &&& told.surface == id
    &&& told.surface_region is None && told.output_region is None
    &&& match input_color {
        None => told.surface_color_standard == 0 && told.input_color_properties.color_range == 0,
        Some(color) => {
            &&& told.surface_color_standard == if color.matrix == Matrix::Bt601 {
                1u32
            } else {
                2u32
            }
            &&& told.input_color_properties.color_range == if color.full_range {
                2u8
            } else {
                1u8
            }
        },
    }
    &&& match output_color {
        None => told.output_color_standard == 0 && told.output_color_properties.color_range == 0,
        Some(color) => {
            &&& told.output_color_standard == if color.matrix == Matrix::Bt601 {
                1u32
            } else {
                2u32
            }
            &&& told.output_color_properties.color_range == if color.full_range {
                2u8
            } else {
                1u8
            }
        },
    }
    &&& told.rotation_state == 0 && told.mirror_state == 0 && told.blend_state is None
    &&& told.filters is None && told.filter_flags == 0 && told.pipeline_flags == 0
}

/// The parameters of a blit tell the driver of its surface and of the color
/// on each side.
pub proof fn a_driver_is_told_of_both_sides(
    surface: u32,
    input_color: Option<Color>,
    output_color: Option<Color>,
    told: ProcPipelineParameterBuffer,
)
    requires
        call_ensures(vpp::pipeline, (surface, input_color, output_color), told),
    ensures
        is_told(told, surface, input_color, output_color),
{
}

/// A processor is opened on the node that was given.
pub proof fn a_processor_is_opened_on_its_node(
    device: PathBuf,
    opening: Opening,
    reply: Result<Display, OpenDrmDisplayError>,
    opened: Result<Probing, ProcessorError>,
    display: Display,
    probing: Probing,
)
    requires
        call_ensures(Processor::new, (device,), opening),
        call_ensures(Opening::opened, (opening, reply), opened),
        call_ensures(Processor::with_display, (display,), probing),
    ensures
        opening.device == device,
        probing.display == display,
        match opened {
            Ok(probing) => reply == Ok::<Display, OpenDrmDisplayError>(probing.display),
            Err(err) => {
                &&& err matches ProcessorError::Open(why)
                &&& reply == Err::<Display, OpenDrmDisplayError>(why)
            },
        },
{
}

/// Where no node is given they are tried from the first on, and the first is
/// taken that opens and offers the entrypoint 10. The last of them is the end
/// of it.
pub proof fn a_node_is_taken_that_processes(
    nodes: Vec<PathBuf>,
    started: Result<Finding, ProcessorError>,
    search: Search,
    reply: NodeReply,
    tried: Result<Finding, ProcessorError>,
)
    requires
        call_ensures(Processor::open, (nodes,), started),
        search.need == Need::Process,
        call_ensures(Finding::tried, (search, reply), tried),
    ensures
        match started {
            Ok(Finding::Try(search)) => {
                &&& nodes@.len() > 0
                &&& search.node == nodes@[0]
                &&& search.rest@ == nodes@.skip(1)
                &&& search.need == Need::Process
            },
            Ok(_) => false,
            Err(err) => nodes@.len() == 0 && err == ProcessorError::NoNode,
        },
        ({
            let processes = match reply {
                NodeReply::Opened { display, entrypoints: Ok(offered) } => offered@.contains(10),
                _ => false,
            };
            match tried {
                Ok(Finding::Found(probing)) => {
                    &&& processes
                    &&& reply matches NodeReply::Opened { display, entrypoints } && probing.display
                        == display
                },
                Ok(Finding::Try(next)) => {
                    &&& !processes
                    &&& search.rest@.len() > 0
                    &&& next.node == search.rest@[0]
                    &&& next.rest@ == search.rest@.skip(1)
                    &&& next.need == Need::Process
                },
                Err(err) => {
                    &&& !processes
                    &&& search.rest@.len() == 0
                    &&& err == ProcessorError::NoNode
                },
            }
        }),
{
    assert(search.nodes().drop_first() =~= search.rest@);
    if let Ok(Finding::Try(next)) = started {
        assert(next.nodes()[0] == next.node);
        assert(next.nodes().skip(1) =~= next.rest@);
    }
    if let Ok(Finding::Try(next)) = tried {
        assert(next.nodes()[0] == next.node);
        assert(next.nodes().skip(1) =~= next.rest@);
    }
}

/// A display that has the attribute is configured with its value, and the
/// processor is on that display, under that configuration, with no context.
pub proof fn a_processor_is_configured(
    probing: Probing,
    attribute: Result<u32, VaError>,
    answered: Result<Configuring, ProcessorError>,
    configuring: Configuring,
    reply: Result<u32, VaError>,
    created: Result<Processor, ProcessorError>,
)
    requires
        call_ensures(Probing::answered, (probing, attribute), answered),
        call_ensures(Configuring::created, (configuring, reply), created),
    ensures
        match answered {
            Ok(next) => {
                &&& attribute == Ok::<u32, VaError>(next.rt_format)
                &&& next.display == probing.display
            },
            Err(err) => {
                &&& err matches ProcessorError::Attributes(why)
                &&& attribute == Err::<u32, VaError>(why)
            },
        },
        match created {
            Ok(processor) => {
                &&& reply == Ok::<u32, VaError>(processor@.config)
                &&& processor@.display == configuring.display
                &&& forall|width: u32, height: u32|
                    #[trigger] processor@.context(width, height) is None
            },
            Err(err) => {
                &&& err matches ProcessorError::Config(why)
                &&& reply == Err::<u32, VaError>(why)
            },
        },
{
}

/// `blit` is of `input` into `output` and from the one color into the other,
/// under the context for the size of `output` where there is one, and else with
/// a context first. It takes surfaces of the processor's own display.
pub open spec fn is_blit(
    processor: ProcessorState,
    input: Surface,
    output: Surface,
    input_color: Option<Color>,
    output_color: Option<Color>,
    blit: Result<Blit, ProcessorError>,
) -> bool {
    match blit {
        Err(err) => {
            &&& input.display != processor.display || output.display != processor.display
            &&& err == ProcessorError::OtherDisplay
        },
        Ok(Blit::Context(new)) => {
            &&& input.display == processor.display && output.display == processor.display
            &&& processor.context(output.width, output.height) is None
            &&& new.config == processor.config
            &&& (new.job.input, new.job.output) == (input, output)
            &&& (new.job.input_color, new.job.output_color) == (input_color, output_color)
        },
        Ok(Blit::Run(run)) => {
            &&& input.display == processor.display && output.display == processor.display
            &&& processor.context(output.width, output.height) == Some(run.context)
            &&& (run.job.input, run.job.output) == (input, output)
            &&& (run.job.input_color, run.job.output_color) == (input_color, output_color)
            &&& is_told(run.parameters, input.id, input_color, output_color)
        },
    }
}

/// A blit is of what was given.
pub proof fn a_blit_goes_from_input_to_output(
    processor: &Processor,
    input: &Surface,
    output: &Surface,
    input_color: Option<Color>,
    output_color: Option<Color>,
    blit: Result<Blit, ProcessorError>,
)
    requires
        call_ensures(
            Processor::blit,
            (processor, input, output, input_color, output_color),
            blit,
        ),
    ensures
        is_blit(processor@, *input, *output, input_color, output_color, blit),
{
}

/// A context that was made is the one that the blit runs under, and is kept
/// for its size. One that was refused leaves the processor as it was.
pub proof fn a_context_is_kept_for_its_size(
    processor: &mut Processor,
    new: NewContext,
    reply: Result<u32, VaError>,
    result: Result<RunBlit, ProcessorError>,
    width: u32,
    height: u32,
)
    requires
        call_ensures(Processor::context_created, (processor, new, reply), result),
    ensures
        match reply {
            Err(error) => {
                &&& result matches Err(
                    ProcessorError::Context { width: of_width, height: of_height, error: why },
                ) && of_width == new.job.output.width && of_height == new.job.output.height && why
                    == error
                &&& final(processor)@ == old(processor)@
            },
            Ok(context) => {
                &&& result matches Ok(run) && run.context == context && run.job == new.job
                    && is_told(
                    run.parameters,
                    new.job.input.id,
                    new.job.input_color,
                    new.job.output_color,
                )
                &&& final(processor)@.display == old(processor)@.display
                &&& final(processor)@.config == old(processor)@.config
                &&& final(processor)@.context(width, height) == if (width, height) == (
                    new.job.output.width,
                    new.job.output.height,
                ) {
                    Some(context)
                } else {
                    old(processor)@.context(width, height)
                }
            },
        },
{
    let (of_width, of_height) = (new.job.output.width, new.job.output.height);
    if vpp::size_key(width, height) == vpp::size_key(of_width, of_height) {
        vpp::sizes_have_contexts_of_their_own(width, height, (of_width, of_height));
    }
}

/// A blit that was done leaves the processor as it was. One that failed costs
/// it the context for its size and no other.
pub proof fn a_failed_blit_costs_its_context(
    processor: &mut Processor,
    run: &RunBlit,
    reply: Result<(), PictureError>,
    result: Result<(), ProcessorError>,
    width: u32,
    height: u32,
)
    requires
        call_ensures(Processor::blitted, (processor, run, reply), result),
    ensures
        match reply {
            Ok(()) => result is Ok && final(processor)@ == old(processor)@,
            Err(err) => {
                &&& result == Err::<(), ProcessorError>(ProcessorError::Blit(err))
                &&& final(processor)@.display == old(processor)@.display
                &&& final(processor)@.config == old(processor)@.config
                &&& final(processor)@.context(width, height) == if (width, height) == (
                    run.job.output.width,
                    run.job.output.height,
                ) {
                    None
                } else {
                    old(processor)@.context(width, height)
                }
            },
        },
{
    let (of_width, of_height) = (run.job.output.width, run.job.output.height);
    if vpp::size_key(width, height) == vpp::size_key(of_width, of_height) {
        vpp::sizes_have_contexts_of_their_own(width, height, (of_width, of_height));
    }
}

/// `allocation` is for `input` to be processed into a surface of the format
/// and the size, for the video processor to write and to be exported. Formats
/// of 4:2:0, of 4:2:2 and of packed RGB have a render target, and no others.
pub open spec fn is_allocation(
    allocation: Result<Allocation, ProcessorError>,
    input: Surface,
    fourcc: u32,
    width: u32,
    height: u32,
    input_color: Option<Color>,
    output_color: Option<Color>,
) -> bool {
    let nv12 = fourcc == dmabuf::name('N', 'V', '1', '2');
    let yuy2 = fourcc == dmabuf::name('Y', 'U', 'Y', '2');
    let rgb = fourcc == dmabuf::name('B', 'G', 'R', 'X') || fourcc == dmabuf::name(
        'B',
        'G',
        'R',
        'A',
    ) || fourcc == dmabuf::name('R', 'G', 'B', 'X') || fourcc == dmabuf::name('R', 'G', 'B', 'A')
        || fourcc == dmabuf::name('X', 'R', 'G', 'B') || fourcc == dmabuf::name(
        'A',
        'R',
        'G',
        'B',
    );
    match allocation {
        Err(err) => {
            &&& !nv12 && !yuy2 && !rgb
            &&& err == ProcessorError::NoTargetFormat { fourcc }
        },
        Ok(allocation) => {
            &&& nv12 || yuy2 || rgb
            &&& allocation.input == input
            &&& (allocation.input_color, allocation.output_color) == (input_color, output_color)
            &&& allocation.request.fourcc == fourcc
            &&& (allocation.request.width, allocation.request.height) == (width, height)
            &&& allocation.request.usage == 0x28
            &&& allocation.request.rt_format == if nv12 {
                0x1u32
            } else if yuy2 {
                0x2u32
            } else {
                0x2_0000u32
            }
        },
    }
}

/// Processing goes into a surface of the format and the size that were asked
/// for, and then is a blit into the last of the surfaces that there are.
pub proof fn processing_is_a_blit_into_a_new_surface(
    processor: &Processor,
    input: &Surface,
    fourcc: u32,
    size: (u32, u32),
    input_color: Option<Color>,
    output_color: Option<Color>,
    result: Result<Allocation, ProcessorError>,
    allocation: Allocation,
    reply: Result<Vec<Surface>, VaError>,
    allocated: Result<(Surface, Blit), ProcessorError>,
)
    requires
        call_ensures(
            Processor::process,
            (processor, input, fourcc, size, input_color, output_color),
            result,
        ),
        call_ensures(Processor::allocated, (processor, allocation, reply), allocated),
    ensures
        is_allocation(result, *input, fourcc, size.0, size.1, input_color, output_color),
        match reply {
            Err(error) => allocated matches Err(
                ProcessorError::Allocate { width, height, error: why },
            ) && width == allocation.request.width && height == allocation.request.height && why
                == error,
            Ok(surfaces) => if surfaces@.len() == 0 {
                allocated == Err::<(Surface, Blit), ProcessorError>(ProcessorError::NoSurface)
            } else {
                let output = surfaces@.last();
                match allocated {
                    Ok((surface, blit)) => {
                        &&& surface == output
                        &&& is_blit(
                            processor@,
                            allocation.input,
                            output,
                            allocation.input_color,
                            allocation.output_color,
                            Ok(blit),
                        )
                    },
                    Err(err) => is_blit(
                        processor@,
                        allocation.input,
                        output,
                        allocation.input_color,
                        allocation.output_color,
                        Err(err),
                    ),
                }
            },
        },
{
    vpp::processing_goes_where_it_was_asked_to(*input, fourcc, size, input_color, output_color);
    dmabuf::the_names_of_the_formats(0, fourcc);
}

/// A buffer is imported as it is, on the processor's display, to be read by it.
pub proof fn a_buffer_is_imported_to_be_read(
    processor: &Processor,
    buffer: DmaBuf,
    import: Import,
    own: Display,
)
    requires
        call_ensures(Processor::import, (processor, buffer), import),
        call_ensures(Processor::display, (processor,), own),
    ensures
        own == processor@.display,
        import.display == processor@.display,
        import.usage == 0x4,
        import.buffer == buffer,
{
}

/// A re-tile imports the buffer, and goes into a surface of the format that
/// the buffer is in and of the size that it was imported with. No color is
/// named, so that none is converted. A format without a VA name is refused.
pub proof fn a_retile_changes_nothing_but_the_tiling(
    processor: &Processor,
    buffer: DmaBuf,
    retiled: Result<Retile, ProcessorError>,
    retile: Retile,
    reply: Result<Surface, ImportError>,
    imported: Result<Allocation, ProcessorError>,
)
    requires
        call_ensures(Processor::retile, (processor, buffer), retiled),
        call_ensures(Processor::retile_imported, (processor, retile, reply), imported),
    ensures
        match retiled {
            Err(err) => {
                &&& dmabuf::va_fourcc(buffer.drm_format) is None
                &&& err == ProcessorError::NoFormat { drm_format: buffer.drm_format }
            },
            Ok(retile) => {
                &&& dmabuf::va_fourcc(buffer.drm_format) == Some(retile.fourcc)
                &&& retile.import.display == processor@.display
                &&& retile.import.usage == 0x4
                &&& retile.import.buffer == buffer
            },
        },
        match reply {
            Err(err) => imported == Err::<Allocation, ProcessorError>(ProcessorError::Import(err)),
            Ok(input) => is_allocation(
                imported,
                input,
                retile.fourcc,
                input.width,
                input.height,
                None,
                None,
            ),
        },
{
    if let Ok(input) = reply {
        let size = (input.width, input.height);
        vpp::processing_goes_where_it_was_asked_to(input, retile.fourcc, size, None, None);
        dmabuf::the_names_of_the_formats(0, retile.fourcc);
    }
}

} // verus!
