//! Frames in DMA-BUFs, and which formats go by which name.

use vstd::prelude::*;

use crate::bindings::VA_FOURCC_ARGB;
use crate::bindings::VA_FOURCC_BGRA;
use crate::bindings::VA_FOURCC_BGRX;
use crate::bindings::VA_FOURCC_NV12;
use crate::bindings::VA_FOURCC_RGBA;
use crate::bindings::VA_FOURCC_RGBX;
use crate::bindings::VA_FOURCC_XRGB;
use crate::bindings::VA_FOURCC_YUY2;
use crate::bindings::VA_RT_FORMAT_RGB32;
use crate::bindings::VA_RT_FORMAT_YUV420;
use crate::bindings::VA_RT_FORMAT_YUV422;
use crate::color::Color;
use crate::VaError;

verus! {

/// `NV12`, 4:2:0 with interleaved chroma.
pub const DRM_FORMAT_NV12: u32 = 0x3231_564e;
/// `YUYV`, packed 4:2:2.
pub const DRM_FORMAT_YUYV: u32 = 0x5659_5559;
/// `XR24`: in memory B, G, R, filling.
pub const DRM_FORMAT_XRGB8888: u32 = 0x3432_5258;
/// `AR24`: in memory B, G, R, alpha.
pub const DRM_FORMAT_ARGB8888: u32 = 0x3432_5241;
/// `XB24`: in memory R, G, B, filling.
pub const DRM_FORMAT_XBGR8888: u32 = 0x3432_4258;
/// `AB24`: in memory R, G, B, alpha.
pub const DRM_FORMAT_ABGR8888: u32 = 0x3432_4241;
/// `BX24`: in memory filling, R, G, B.
pub const DRM_FORMAT_BGRX8888: u32 = 0x3432_5842;
/// `BA24`: in memory alpha, R, G, B.
pub const DRM_FORMAT_BGRA8888: u32 = 0x3432_4142;

/// What there is to know of a frame in a DMA-BUF, but for its descriptors.
#[derive(Copy, Clone, Debug, PartialEq, Eq, Structural)]
pub struct DmaBuf {
    /// The DRM name of the pixel format.
    pub drm_format: u32,
    /// The DRM format modifier.
    pub modifier: u64,
    pub width: u32,
    pub height: u32,
    /// The YUV space of the samples, where it is known.
    pub color: Option<Color>,
}

/// Why a DMA-BUF did not become a surface.
#[derive(Copy, Clone, Debug, PartialEq, Eq, Structural)]
pub enum ImportError {
    /// The driver refused it.
    Refused(VaError),
    /// The driver took it and made no surface of it.
    NoSurface,
}

/// The VA name of the DRM format `drm_format`, which DRM names by the word
/// and VA by the bytes in memory.
pub open spec fn va_fourcc(drm_format: u32) -> Option<u32> {
    if drm_format == DRM_FORMAT_NV12 {
        Some(VA_FOURCC_NV12)
    } else if drm_format == DRM_FORMAT_YUYV {
        Some(VA_FOURCC_YUY2)
    } else if drm_format == DRM_FORMAT_XRGB8888 {
        Some(VA_FOURCC_BGRX)
    } else if drm_format == DRM_FORMAT_ARGB8888 {
        Some(VA_FOURCC_BGRA)
    } else if drm_format == DRM_FORMAT_XBGR8888 {
        Some(VA_FOURCC_RGBX)
    } else if drm_format == DRM_FORMAT_ABGR8888 {
        Some(VA_FOURCC_RGBA)
    } else if drm_format == DRM_FORMAT_BGRX8888 {
        Some(VA_FOURCC_XRGB)
    } else if drm_format == DRM_FORMAT_BGRA8888 {
        Some(VA_FOURCC_ARGB)
    } else {
        None
    }
}

impl DmaBuf {
    /// Returns the VA name of the pixel format, if it has one.
    pub fn fourcc(&self) -> (r: Option<u32>)
        ensures
            r == va_fourcc(self.drm_format),
    {
        match self.drm_format {
            DRM_FORMAT_NV12 => Some(VA_FOURCC_NV12),
            DRM_FORMAT_YUYV => Some(VA_FOURCC_YUY2),
            DRM_FORMAT_XRGB8888 => Some(VA_FOURCC_BGRX),
            DRM_FORMAT_ARGB8888 => Some(VA_FOURCC_BGRA),
            DRM_FORMAT_XBGR8888 => Some(VA_FOURCC_RGBX),
            DRM_FORMAT_ABGR8888 => Some(VA_FOURCC_RGBA),
            DRM_FORMAT_BGRX8888 => Some(VA_FOURCC_XRGB),
            DRM_FORMAT_BGRA8888 => Some(VA_FOURCC_ARGB),
            _ => None,
        }
    }
}

/// The VA formats of packed RGB.
pub open spec fn packed_rgb(fourcc: u32) -> bool {
    fourcc == VA_FOURCC_BGRX || fourcc == VA_FOURCC_BGRA || fourcc == VA_FOURCC_RGBX || fourcc
        == VA_FOURCC_RGBA || fourcc == VA_FOURCC_XRGB || fourcc == VA_FOURCC_ARGB
}

/// The render target format of surfaces of `fourcc`.
pub open spec fn target_format(fourcc: u32) -> Option<u32> {
    if fourcc == VA_FOURCC_NV12 {
        Some(VA_RT_FORMAT_YUV420)
    } else if fourcc == VA_FOURCC_YUY2 {
        Some(VA_RT_FORMAT_YUV422)
    } else if packed_rgb(fourcc) {
        Some(VA_RT_FORMAT_RGB32)
    } else {
        None
    }
}

/// Returns the render target format of surfaces of `fourcc`, if there is one.
pub fn rt_format(fourcc: u32) -> (r: Option<u32>)
    ensures
        r == target_format(fourcc),
{
    match fourcc {
        VA_FOURCC_NV12 => Some(VA_RT_FORMAT_YUV420),
        VA_FOURCC_YUY2 => Some(VA_RT_FORMAT_YUV422),
        VA_FOURCC_BGRX => Some(VA_RT_FORMAT_RGB32),
        VA_FOURCC_BGRA => Some(VA_RT_FORMAT_RGB32),
        VA_FOURCC_RGBX => Some(VA_RT_FORMAT_RGB32),
        VA_FOURCC_RGBA => Some(VA_RT_FORMAT_RGB32),
        VA_FOURCC_XRGB => Some(VA_RT_FORMAT_RGB32),
        VA_FOURCC_ARGB => Some(VA_RT_FORMAT_RGB32),
        _ => None,
    }
}

/// The number of the format with the name `abcd`.
pub open spec fn name(a: char, b: char, c: char, d: char) -> int {
    a as int + 0x100 * (b as int) + 0x1_0000 * (c as int) + 0x100_0000 * (d as int)
}

/// VA names a format by its bytes in memory. DRM names one of RGB by the word
/// that its bytes make up with the lowest first, so that the letters come the
/// other way around; those of YUV go by the bytes too. No other format has a VA
/// name. Packed RGB is what VA names by the letters of its colors.
pub proof fn the_names_of_the_formats(drm_format: u32, fourcc: u32)
    ensures
        va_fourcc(drm_format) == if drm_format == name('N', 'V', '1', '2') {
            Some(name('N', 'V', '1', '2') as u32)
        } else if drm_format == name('Y', 'U', 'Y', 'V') {
            Some(name('Y', 'U', 'Y', '2') as u32)
        } else if drm_format == name('X', 'R', '2', '4') {
            Some(name('B', 'G', 'R', 'X') as u32)
        } else if drm_format == name('A', 'R', '2', '4') {
            Some(name('B', 'G', 'R', 'A') as u32)
        } else if drm_format == name('X', 'B', '2', '4') {
            Some(name('R', 'G', 'B', 'X') as u32)
        } else if drm_format == name('A', 'B', '2', '4') {
            Some(name('R', 'G', 'B', 'A') as u32)
        } else if drm_format == name('B', 'X', '2', '4') {
            Some(name('X', 'R', 'G', 'B') as u32)
        } else if drm_format == name('B', 'A', '2', '4') {
            Some(name('A', 'R', 'G', 'B') as u32)
        } else {
            None::<u32>
        },
        packed_rgb(fourcc) == (fourcc == name('B', 'G', 'R', 'X') || fourcc == name(
            'B',
            'G',
            'R',
            'A',
        ) || fourcc == name('R', 'G', 'B', 'X') || fourcc == name('R', 'G', 'B', 'A') || fourcc
            == name('X', 'R', 'G', 'B') || fourcc == name('A', 'R', 'G', 'B')),
        VA_FOURCC_NV12 == name('N', 'V', '1', '2'),
        VA_FOURCC_YUY2 == name('Y', 'U', 'Y', '2'),
{
}

/// A format is rendered to as what it is: 4:2:0 as 1, 4:2:2 as 2, packed RGB
/// as the bit for 32 bits of it.
pub proof fn a_format_is_rendered_to_as_what_it_is(drm_format: u32)
    ensures
        va_fourcc(drm_format) matches Some(fourcc) ==> target_format(fourcc) == if fourcc == name(
            'N',
            'V',
            '1',
            '2',
        ) {
            Some(0x1u32)
        } else if fourcc == name('Y', 'U', 'Y', '2') {
            Some(0x2u32)
        } else {
            Some(0x2_0000u32)
        },
{
}

/// No two formats of a DMA-BUF share a VA name.
pub proof fn formats_have_names_of_their_own(drm_format: u32, other: u32)
    requires
        va_fourcc(drm_format) is Some,
        va_fourcc(drm_format) == va_fourcc(other),
    ensures
        drm_format == other,
{
}

/// Every format that a DMA-BUF can be imported in can be rendered to.
pub proof fn an_importable_format_can_be_rendered_to(drm_format: u32)
    ensures
        va_fourcc(drm_format) is Some ==> target_format(va_fourcc(drm_format)->0) is Some,
{
}

/// A buffer goes by the VA name of its format, and surfaces of that name are
/// rendered to as what they are.
pub proof fn a_buffer_goes_by_its_name(buffer: &DmaBuf, fourcc: Option<u32>, target: Option<u32>)
    requires
        call_ensures(DmaBuf::fourcc, (buffer,), fourcc),
        fourcc is Some ==> call_ensures(rt_format, (fourcc->0,), target),
    ensures
        ({
            let format = buffer.drm_format;
            let nv12 = format == name('N', 'V', '1', '2');
            let yuyv = format == name('Y', 'U', 'Y', 'V');
            &&& nv12 ==> fourcc == Some(name('N', 'V', '1', '2') as u32) && target == Some(0x1u32)
            &&& yuyv ==> fourcc == Some(name('Y', 'U', 'Y', '2') as u32) && target == Some(0x2u32)
            &&& format == name('X', 'R', '2', '4') ==> fourcc == Some(
                name('B', 'G', 'R', 'X') as u32,
            )
            &&& format == name('A', 'R', '2', '4') ==> fourcc == Some(
                name('B', 'G', 'R', 'A') as u32,
            )
            &&& format == name('X', 'B', '2', '4') ==> fourcc == Some(
                name('R', 'G', 'B', 'X') as u32,
            )
            &&& format == name('A', 'B', '2', '4') ==> fourcc == Some(
                name('R', 'G', 'B', 'A') as u32,
            )
            &&& format == name('B', 'X', '2', '4') ==> fourcc == Some(
                name('X', 'R', 'G', 'B') as u32,
            )
            &&& format == name('B', 'A', '2', '4') ==> fourcc == Some(
                name('A', 'R', 'G', 'B') as u32,
            )
            &&& fourcc is Some && !nv12 && !yuyv ==> target == Some(0x2_0000u32)
        }),
{
    the_names_of_the_formats(buffer.drm_format, 0);
}

} // verus!
