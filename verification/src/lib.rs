//! The device-independent half of a VA-API H.264 encoder.
//!
//! What talks to the driver stays outside: this crate says what to ask of it,
//! call by call, and what follows from its answers.

pub mod bindings;
pub mod bitstream_utils;
pub mod buffer;
pub mod codec;
pub mod color;
pub mod decode;
pub mod display;
pub mod dmabuf;
pub mod encode;
pub mod vpp;

use vstd::prelude::*;
use vstd::std_specs::convert::FromSpecImpl;

use crate::bindings::VAStatus;

verus! {

/// A frame resolution in pixels.
#[derive(Copy, Clone, Debug, PartialEq, Eq, Structural)]
pub struct Resolution {
    pub width: u32,
    pub height: u32,
}

impl Default for Resolution {
    fn default() -> (r: Self)
        ensures
            r.width == 0,
            r.height == 0,
    {
        Self { width: 0, height: 0 }
    }
}

impl Resolution {
    /// A picture of this size has room for one of `other`'s.
    pub open spec fn contains(self, other: Self) -> bool {
        self.width >= other.width && self.height >= other.height
    }

    /// The number of pixels.
    pub open spec fn area(self) -> int {
        self.width * self.height
    }

    /// Whether `self` can contain `other`.
    pub fn can_contain(&self, other: Self) -> (r: bool)
        ensures
            r == self.contains(other),
    {
        self.width >= other.width && self.height >= other.height
    }

    /// Returns the number of pixels.
    pub fn get_area(&self) -> (r: usize)
        requires
            self.area() <= usize::MAX,
        ensures
            r == self.area(),
    {
        (self.width as usize) * (self.height as usize)
    }
}

impl From<(u32, u32)> for Resolution {
    fn from(value: (u32, u32)) -> (r: Self) {
        Self { width: value.0, height: value.1 }
    }
}

impl FromSpecImpl<(u32, u32)> for Resolution {
    open spec fn obeys_from_spec() -> bool {
        true
    }

    open spec fn from_spec(value: (u32, u32)) -> Self {
        Resolution { width: value.0, height: value.1 }
    }
}

impl From<Resolution> for (u32, u32) {
    fn from(value: Resolution) -> (r: Self) {
        (value.width, value.height)
    }
}

impl FromSpecImpl<Resolution> for (u32, u32) {
    open spec fn obeys_from_spec() -> bool {
        true
    }

    open spec fn from_spec(value: Resolution) -> Self {
        (value.width, value.height)
    }
}

/// A pair of lengths becomes a resolution and the pair again.
pub proof fn a_resolution_keeps_its_lengths(pair: (u32, u32))
    ensures
        <(u32, u32) as vstd::std_specs::convert::FromSpec<Resolution>>::from_spec(
            <Resolution as vstd::std_specs::convert::FromSpec<(u32, u32)>>::from_spec(pair),
        ) == pair,
{
}

/// Containing orders the resolutions: each contains itself, two that contain
/// each other are the same, and what a contained one contains is contained.
pub proof fn containing_is_an_order(a: Resolution, b: Resolution, c: Resolution)
    ensures
        a.contains(a),
        a.contains(b) && b.contains(a) ==> a == b,
        a.contains(b) && b.contains(c) ==> a.contains(c),
{
}

/// A resolution has at least as many pixels as any that it contains.
pub proof fn a_contained_resolution_is_no_larger(a: Resolution, b: Resolution)
    requires
        a.contains(b),
    ensures
        b.area() <= a.area(),
{
    assert(b.width * b.height <= a.width * a.height) by (nonlinear_arith)
        requires
            b.width <= a.width,
            b.height <= a.height,
    ;
}

/// A `VAStatus` that is guaranteed to not be `VA_STATUS_SUCCESS`.
#[derive(Copy, Clone, Debug, PartialEq, Eq, Structural)]
pub struct VaError(VAStatus);

impl VaError {
    #[verifier::type_invariant]
    spec fn is_an_error(self) -> bool {
        self.0 != 0
    }

    /// The status that it stands for.
    pub closed spec fn status(self) -> VAStatus {
        self.0
    }

    /// Returns the `VAStatus` of this error.
    pub fn va_status(&self) -> (r: VAStatus)
        ensures
            r == self.status(),
            r != bindings::VA_STATUS_SUCCESS,
    {
        proof {
            use_type_invariant(self);
        }
        self.0
    }
}

/// Checks a VA return value and returns a `VaError` if it is not `VA_STATUS_SUCCESS`.
pub fn va_check(code: VAStatus) -> (r: Result<(), VaError>)
    ensures
        r is Ok <==> code == bindings::VA_STATUS_SUCCESS,
        r is Err ==> r->Err_0.status() == code,
{
    if code == bindings::VA_STATUS_SUCCESS {
        Ok(())
    } else {
        Err(VaError(code))
    }
}

/// The pixel in the column `x` and the row `y` is one of a picture of this size.
pub open spec fn has_pixel(resolution: Resolution, x: int, y: int) -> bool {
    0 <= x < resolution.width && 0 <= y < resolution.height
}

/// A resolution can contain another exactly where every pixel of the other is
/// one of its own. (One without pixels is as long as its sides.)
pub proof fn a_resolution_contains_every_pixel(
    resolution: &Resolution,
    other: Resolution,
    contained: bool,
)
    requires
        call_ensures(Resolution::can_contain, (resolution, other), contained),
    ensures
        contained ==> forall|x: int, y: int| #[trigger]
            has_pixel(other, x, y) ==> has_pixel(*resolution, x, y),
        other.width > 0 && other.height > 0 && !contained ==> exists|x: int, y: int| #[trigger]
            has_pixel(other, x, y) && !has_pixel(*resolution, x, y),
        contained == (other.width <= resolution.width && other.height <= resolution.height),
{
    if other.width > 0 && other.height > 0 && !contained {
        let (x, y) = (other.width - 1, other.height - 1);
        assert(has_pixel(other, x, y) && !has_pixel(*resolution, x, y));
    }
}

/// A row more is as many pixels more as the row is long, and a column as it
/// is high. Without a row there are none, nor without a column.
pub proof fn an_area_counts_the_pixels(
    resolution: &Resolution,
    area: usize,
    taller: &Resolution,
    taller_area: usize,
    wider: &Resolution,
    wider_area: usize,
)
    requires
        taller.width == resolution.width && taller.height == resolution.height + 1,
        wider.width == resolution.width + 1 && wider.height == resolution.height,
        call_ensures(Resolution::get_area, (resolution,), area),
        call_ensures(Resolution::get_area, (taller,), taller_area),
        call_ensures(Resolution::get_area, (wider,), wider_area),
    ensures
        taller_area == area + resolution.width,
        wider_area == area + resolution.height,
        resolution.width == 0 || resolution.height == 0 ==> area == 0,
{
    let (w, h) = (resolution.width as int, resolution.height as int);
    assert(w * (h + 1) == w * h + w) by (nonlinear_arith);
    assert((w + 1) * h == w * h + h) by (nonlinear_arith);
    assert(w == 0 || h == 0 ==> w * h == 0) by (nonlinear_arith);
}

/// The width comes first in a pair of lengths.
pub proof fn the_width_comes_first(pair: (u32, u32), resolution: Resolution, back: (u32, u32))
    requires
        call_ensures(<Resolution as From<(u32, u32)>>::from, (pair,), resolution),
        call_ensures(<(u32, u32) as From<Resolution>>::from, (resolution,), back),
    ensures
        resolution.width == pair.0,
        resolution.height == pair.1,
        back == pair,
{
}

/// A status is an error exactly where it is not zero, and the error gives the
/// status back.
pub proof fn an_error_is_a_status_other_than_zero(
    code: VAStatus,
    checked: Result<(), VaError>,
    error: &VaError,
    status: VAStatus,
)
    requires
        call_ensures(va_check, (code,), checked),
        call_ensures(VaError::va_status, (error,), status),
        checked == Err::<(), VaError>(*error),
    ensures
        code != 0,
        status == code,
{
}

/// Zero is no error.
pub proof fn zero_is_no_error(code: VAStatus, checked: Result<(), VaError>)
    requires
        call_ensures(va_check, (code,), checked),
    ensures
        checked is Ok == (code == 0),
{
}

/// A resolution of which nothing is known has no pixels.
pub proof fn an_unknown_resolution_has_no_pixels(unknown: Resolution, x: int, y: int)
    requires
        call_ensures(<Resolution as Default>::default, (), unknown),
    ensures
        unknown.width == 0,
        unknown.height == 0,
        !has_pixel(unknown, x, y),
{
}

} // verus!
