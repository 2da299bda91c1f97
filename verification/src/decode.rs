//! Frames on their way out of a surface.

use vstd::prelude::*;

use crate::display::Surface;
use crate::VaError;

verus! {

/// A frame that was exported, with the time it is of.
#[derive(Copy, Clone, Debug, PartialEq, Eq, Structural)]
pub struct ExportedFrame {
    pub surface: Surface,
    pub width: u32,
    pub height: u32,
    pub timestamp: u64,
}

impl ExportedFrame {
    /// Takes what came of exporting `surface`: a frame of its size, of the time `timestamp`.
    ///
    /// # Errors
    ///
    /// Fails when the driver refused the export.
    pub fn from_surface(surface: Surface, timestamp: u64, reply: Result<(), VaError>) -> (r: Result<
        Self,
        VaError,
    >)
        ensures
            r == match reply {
                Err(err) => Err::<Self, VaError>(err),
                Ok(()) => Ok(
                    ExportedFrame {
                        surface,
                        width: surface.width,
                        height: surface.height,
                        timestamp,
                    },
                ),
            },
    {
        match reply {
            Err(err) => Err(err),
            Ok(()) => Ok(
                Self { surface, width: surface.width, height: surface.height, timestamp },
            ),
        }
    }
}

/// An exported frame is the surface, of its size and of the time it was given.
/// It is there exactly where the driver exported it.
pub proof fn an_exported_frame_is_its_surface(
    surface: Surface,
    timestamp: u64,
    reply: Result<(), VaError>,
    result: Result<ExportedFrame, VaError>,
)
    requires
        call_ensures(ExportedFrame::from_surface, (surface, timestamp, reply), result),
    ensures
        match result {
            Ok(frame) => {
                &&& reply is Ok
                &&& frame.surface == surface
                &&& (frame.width, frame.height) == (surface.width, surface.height)
                &&& frame.timestamp == timestamp
            },
            Err(err) => reply == Err::<(), VaError>(err),
        },
{
}

} // verus!
