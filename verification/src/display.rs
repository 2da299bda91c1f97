//! Displays, the surfaces on them, and the search for a render node.

use std::path::PathBuf;

use vstd::prelude::*;

use crate::bindings::VA_ENTRYPOINT_ENC_SLICE;
use crate::bindings::VA_ENTRYPOINT_ENC_SLICE_LP;
use crate::bindings::VA_ENTRYPOINT_VIDEO_PROC;
use crate::bindings::VA_PROFILE_H264_MAIN;
use crate::bindings::VA_PROFILE_NONE;
use crate::dmabuf::DmaBuf;
use crate::encode;
use crate::vpp;
use crate::VaError;

verus! {

/// `std::path::PathBuf`, carried through as it is: nothing is claimed of it.
#[verifier::external_type_specification]
#[verifier::external_body]
pub struct ExPathBuf(PathBuf);

/// An open display, by a number that no other display has.
#[derive(Copy, Clone, Debug, PartialEq, Eq, Structural)]
pub struct Display {
    pub handle: u64,
}

/// A surface. Its id means something only on the display that made it.
#[derive(Copy, Clone, Debug, PartialEq, Eq, Structural)]
pub struct Surface {
    pub id: u32,
    pub display: Display,
    pub width: u32,
    pub height: u32,
}

/// Why a render node did not open.
#[derive(Copy, Clone, Debug, PartialEq, Eq, Structural)]
pub enum OpenDrmDisplayError {
    /// There is no libva to load.
    NoLibrary,
    /// The node itself could not be opened.
    DeviceOpen,
    /// The driver did not start.
    VaInitialize(VaError),
}

/// Where rendering a picture broke off.
#[derive(Copy, Clone, Debug, PartialEq, Eq, Structural)]
pub enum PictureError {
    /// One of its buffers could not be created.
    Buffer(VaError),
    Begin(VaError),
    Render(VaError),
    End(VaError),
    Sync(VaError),
}

/// Why a driver does not do.
#[derive(Copy, Clone, Debug, PartialEq, Eq, Structural)]
pub enum ProbeError {
    /// It could not be asked for its entrypoints.
    Query(VaError),
    /// It has none of those that are needed.
    NoEntrypoint,
}

/// An import to make: `buffer` as a surface on `display`, hinted with `usage`.
#[derive(Copy, Clone, Debug, PartialEq, Eq, Structural)]
pub struct Import {
    pub display: Display,
    pub usage: u32,
    pub buffer: DmaBuf,
}

/// A surface to allocate.
#[derive(Copy, Clone, Debug, PartialEq, Eq, Structural)]
pub struct SurfaceRequest {
    pub rt_format: u32,
    pub fourcc: u32,
    pub width: u32,
    pub height: u32,
    pub usage: u32,
}

/// Returns whether `entrypoint` is among those offered.
pub fn offers(offered: &[u32], entrypoint: u32) -> (r: bool)
    ensures
        r == offered@.contains(entrypoint),
{
    let mut i: usize = 0;
    while i < offered.len()
        invariant
            i <= offered@.len(),
            forall|j: int| 0 <= j < i ==> offered@[j] != entrypoint,
        decreases offered@.len() - i,
    {
        if offered[i] == entrypoint {
            return true;
        }
        i += 1;
    }
    false
}

/// What a render node is wanted for.
#[derive(Copy, Clone, Debug, PartialEq, Eq, Structural)]
pub enum Need {
    /// To encode H.264.
    Encode,
    /// To process video.
    Process,
}

impl Need {
    /// The profile to ask the entrypoints of.
    pub open spec fn spec_profile(self) -> i32 {
        match self {
            Need::Encode => VA_PROFILE_H264_MAIN,
            Need::Process => VA_PROFILE_NONE,
        }
    }

    /// Returns the profile to ask the entrypoints of.
    pub fn profile(&self) -> (r: i32)
        ensures
            r == self.spec_profile(),
    {
        match self {
            Need::Encode => VA_PROFILE_H264_MAIN,
            Need::Process => VA_PROFILE_NONE,
        }
    }

    /// A driver with these entrypoints of that profile will do.
    pub open spec fn met_by(self, offered: Seq<u32>) -> bool {
        match self {
            Need::Encode => offered.contains(VA_ENTRYPOINT_ENC_SLICE) || offered.contains(
                VA_ENTRYPOINT_ENC_SLICE_LP,
            ),
            Need::Process => offered.contains(VA_ENTRYPOINT_VIDEO_PROC),
        }
    }

    /// What probing a driver comes to.
    pub open spec fn verdict(self, entrypoints: Result<Vec<u32>, VaError>) -> Result<
        (),
        ProbeError,
    > {
        match entrypoints {
            Err(err) => Err(ProbeError::Query(err)),
            Ok(offered) => if self.met_by(offered@) {
                Ok(())
            } else {
                Err(ProbeError::NoEntrypoint)
            },
        }
    }
}

/// What came of trying a render node.
#[derive(Debug)]
pub enum NodeReply {
    /// It did not open.
    Refused(OpenDrmDisplayError),
    /// It opened, and this is what it said of its entrypoints.
    Opened { display: Display, entrypoints: Result<Vec<u32>, VaError> },
}

impl NodeReply {
    /// The node opened and its driver will do.
    pub open spec fn passes(self, need: Need) -> bool {
        self matches NodeReply::Opened { display, entrypoints } && need.verdict(entrypoints) is Ok
    }

    /// The display of a node that opened.
    pub open spec fn opened(self) -> Display {
        self->Opened_display
    }
}

/// A search for the first render node that will do. The node at its head is
/// to be opened, and its entrypoints for the profile of `need` asked.
#[derive(Debug)]
pub struct Search {
    pub need: Need,
    pub node: PathBuf,
    pub rest: Vec<PathBuf>,
}

impl Search {
    /// The nodes that are left, the one to try at their head.
    pub open spec fn nodes(self) -> Seq<PathBuf> {
        seq![self.node] + self.rest@
    }
}

/// Where a search has got to.
#[derive(Debug)]
pub enum SearchStep {
    /// There is another node to try.
    Try(Search),
    /// This one will do.
    Found { device: PathBuf, display: Display },
    /// None does.
    Exhausted,
}

/// The search that has `nodes` left.
pub open spec fn searches(step: SearchStep, nodes: Seq<PathBuf>, need: Need) -> bool {
    if nodes.len() == 0 {
        step is Exhausted
    } else {
        step matches SearchStep::Try(search) && search.need == need && search.nodes() == nodes
    }
}

/// Starts the search for the first of `nodes` that meets `need`.
pub fn open_first(nodes: Vec<PathBuf>, need: Need) -> (r: SearchStep)
    ensures
        searches(r, nodes@, need),
{
    if nodes.len() == 0 {
        SearchStep::Exhausted
    } else {
        let ghost all = nodes@;
        let mut rest = nodes;
        let node = rest.remove(0);
        assert(seq![node] + rest@ =~= all);
        SearchStep::Try(Search { need, node, rest })
    }
}

impl Search {
    /// Takes what came of trying the node at the head: it is the one if it
    /// will do, and the search goes on with the next if not.
    pub fn answered(self, reply: NodeReply) -> (r: SearchStep)
        ensures
            if reply.passes(self.need) {
                r == (SearchStep::Found { device: self.node, display: reply.opened() })
            } else {
                searches(r, self.nodes().drop_first(), self.need)
            },
    {
        let Search { need, node, rest } = self;
        assert(self.nodes().drop_first() =~= rest@);
        match reply {
            NodeReply::Refused(_) => open_first(rest, need),
            NodeReply::Opened { display, entrypoints } => {
                let verdict = match need {
                    Need::Encode => encode::probe(&entrypoints),
                    Need::Process => vpp::probe(&entrypoints),
                };
                match verdict {
                    Ok(()) => SearchStep::Found { device: node, display },
                    Err(_) => open_first(rest, need),
                }
            },
        }
    }
}

/// What a search through `nodes` finds, where trying the node at `i` gives
/// `replies[i]`: step after step, as [`Search::answered`] takes them.
pub open spec fn search_result(
    nodes: Seq<PathBuf>,
    replies: Seq<NodeReply>,
    need: Need,
) -> Option<(PathBuf, Display)>
    decreases nodes.len(),
{
    if nodes.len() == 0 {
        None
    } else if replies[0].passes(need) {
        Some((nodes[0], replies[0].opened()))
    } else {
        search_result(nodes.drop_first(), replies.drop_first(), need)
    }
}

/// A search finds the first node that will do.
pub proof fn the_first_node_that_will_do_is_found(
    nodes: Seq<PathBuf>,
    replies: Seq<NodeReply>,
    need: Need,
    first: int,
)
    requires
        replies.len() == nodes.len(),
        0 <= first < nodes.len(),
        replies[first].passes(need),
        forall|i: int| 0 <= i < first ==> !(#[trigger] replies[i]).passes(need),
    ensures
        search_result(nodes, replies, need) == Some((nodes[first], replies[first].opened())),
    decreases first,
{
    if first > 0 {
        assert(!replies[0].passes(need));
        let (later_nodes, later) = (nodes.drop_first(), replies.drop_first());
        assert forall|i: int| 0 <= i < first - 1 implies !(#[trigger] later[i]).passes(need) by {
            assert(later[i] == replies[i + 1]);
        }
        assert(later[first - 1] == replies[first]);
        the_first_node_that_will_do_is_found(later_nodes, later, need, first - 1);
    }
}

/// A search finds nothing where no node will do.
pub proof fn no_node_is_found_where_none_will_do(
    nodes: Seq<PathBuf>,
    replies: Seq<NodeReply>,
    need: Need,
)
    requires
        replies.len() == nodes.len(),
        forall|i: int| 0 <= i < nodes.len() ==> !(#[trigger] replies[i]).passes(need),
    ensures
        search_result(nodes, replies, need) is None,
    decreases nodes.len(),
{
    if nodes.len() > 0 {
        assert(!replies[0].passes(need));
        let later = replies.drop_first();
        assert forall|i: int| 0 <= i < nodes.len() - 1 implies !(#[trigger] later[i]).passes(
            need,
        ) by {
            assert(later[i] == replies[i + 1]);
        }
        no_node_is_found_where_none_will_do(nodes.drop_first(), later, need);
    }
}

/// A search starts with the first node, and has the others left. Where there
/// are none it is at its end.
pub proof fn a_search_starts_with_the_first_node(
    nodes: Vec<PathBuf>,
    need: Need,
    step: SearchStep,
)
    requires
        call_ensures(open_first, (nodes, need), step),
    ensures
        match step {
            SearchStep::Try(search) => {
                &&& nodes@.len() > 0
                &&& search.node == nodes@[0]
                &&& search.rest@ == nodes@.skip(1)
                &&& search.need == need
            },
            SearchStep::Found { .. } => false,
            SearchStep::Exhausted => nodes@.len() == 0,
        },
{
    if let SearchStep::Try(search) = step {
        assert(search.nodes()[0] == search.node);
        assert(search.nodes().skip(1) =~= search.rest@);
    }
}

/// A search ends with a node that opened and offers an entrypoint for what is
/// needed: 6 or 8 to encode, 10 to process. It goes on with the next where
/// there is one, and else is at its end.
pub proof fn a_search_ends_with_a_node_that_will_do(
    search: Search,
    reply: NodeReply,
    step: SearchStep,
)
    requires
        call_ensures(Search::answered, (search, reply), step),
    ensures
        ({
            let will_do = match reply {
                NodeReply::Opened { display, entrypoints: Ok(offered) } => match search.need {
                    Need::Encode => offered@.contains(6) || offered@.contains(8),
                    Need::Process => offered@.contains(10),
                },
                _ => false,
            };
            match step {
                SearchStep::Found { device, display } => {
                    &&& will_do
                    &&& device == search.node
                    &&& reply matches NodeReply::Opened { display: opened, entrypoints } && opened
                        == display
                },
                SearchStep::Try(next) => {
                    &&& !will_do
                    &&& search.rest@.len() > 0
                    &&& next.node == search.rest@[0]
                    &&& next.rest@ == search.rest@.skip(1)
                    &&& next.need == search.need
                },
                SearchStep::Exhausted => !will_do && search.rest@.len() == 0,
            }
        }),
{
    assert(search.nodes().drop_first() =~= search.rest@);
    if let SearchStep::Try(next) = step {
        assert(next.nodes()[0] == next.node);
        assert(next.nodes().skip(1) =~= next.rest@);
    }
}

/// The entrypoints are asked of the profile 6 to encode and of none to
/// process, and one is offered that is among them.
pub proof fn the_entrypoints_are_asked_of_a_profile(
    need: &Need,
    profile: i32,
    offered: &[u32],
    entrypoint: u32,
    found: bool,
)
    requires
        call_ensures(Need::profile, (need,), profile),
        call_ensures(offers, (offered, entrypoint), found),
    ensures
        *need == Need::Encode ==> profile == 6,
        *need == Need::Process ==> profile == -1,
        found == exists|i: int| 0 <= i < offered@.len() && offered@[i] == entrypoint,
{
}

} // verus!
