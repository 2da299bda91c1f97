//! The YUV color spaces of a stream.

use vstd::prelude::*;

use crate::bindings::VA_PROC_COLOR_STANDARD_BT601;
use crate::bindings::VA_PROC_COLOR_STANDARD_BT709;
use crate::bindings::VA_SOURCE_RANGE_FULL;
use crate::bindings::VA_SOURCE_RANGE_REDUCED;

verus! {

/// The matrix between RGB and YUV.
#[derive(Copy, Clone, Debug, PartialEq, Eq, Structural)]
pub enum Matrix {
    Bt601,
    Bt709,
}

/// A YUV color space.
#[derive(Copy, Clone, Debug, PartialEq, Eq, Structural)]
pub struct Color {
    pub matrix: Matrix,
    /// Whether the samples use their whole range.
    pub full_range: bool,
}

/// The picture height from which a stream counts as high definition.
pub const HD_HEIGHT: u32 = 720;

impl Color {
    /// BT.601, limited range.
    pub open spec fn spec_bt601() -> Color {
        Color { matrix: Matrix::Bt601, full_range: false }
    }

    /// Returns BT.601, limited range.
    #[verifier::when_used_as_spec(spec_bt601)]
    pub fn bt601() -> (r: Color)
        ensures
            r == Self::spec_bt601(),
    {
        Color { matrix: Matrix::Bt601, full_range: false }
    }

    /// BT.709, limited range.
    pub open spec fn spec_bt709() -> Color {
        Color { matrix: Matrix::Bt709, full_range: false }
    }

    /// Returns BT.709, limited range.
    #[verifier::when_used_as_spec(spec_bt709)]
    pub fn bt709() -> (r: Color)
        ensures
            r == Self::spec_bt709(),
    {
        Color { matrix: Matrix::Bt709, full_range: false }
    }

    /// What a decoder takes an unlabelled stream of this height to be in.
    pub open spec fn inferred(height: int) -> Color {
        if height >= HD_HEIGHT {
            Color::bt709()
        } else {
            Color::bt601()
        }
    }

    /// Returns what a decoder takes an unlabelled stream of this height to be
    /// in: BT.709 for high definition, BT.601 below it, limited range.
    pub fn infer(height: u32) -> (r: Self)
        ensures
            r == Self::inferred(height as int),
    {
        if height >= HD_HEIGHT {
            Color::bt709()
        } else {
            Color::bt601()
        }
    }

    /// The numbers of Tables E-3 to E-5 for the primaries, the transfer
    /// characteristics and the matrix.
    pub open spec fn description(self) -> (u8, u8, u8) {
        match self.matrix {
            Matrix::Bt601 => (6, 6, 6),
            Matrix::Bt709 => (1, 1, 1),
        }
    }

    /// Returns the primaries, the transfer characteristics and the matrix, as
    /// the usability information of a stream numbers them.
    pub fn vui(&self) -> (r: (u8, u8, u8))
        ensures
            r == self.description(),
    {
        match self.matrix {
            Matrix::Bt601 => (6, 6, 6),
            Matrix::Bt709 => (1, 1, 1),
        }
    }

    /// The number that the video processor has for the matrix.
    pub open spec fn standard(self) -> u32 {
        match self.matrix {
            Matrix::Bt601 => VA_PROC_COLOR_STANDARD_BT601,
            Matrix::Bt709 => VA_PROC_COLOR_STANDARD_BT709,
        }
    }

    /// Returns the number that the video processor has for the matrix.
    pub fn va_standard(&self) -> (r: u32)
        ensures
            r == self.standard(),
    {
        match self.matrix {
            Matrix::Bt601 => VA_PROC_COLOR_STANDARD_BT601,
            Matrix::Bt709 => VA_PROC_COLOR_STANDARD_BT709,
        }
    }

    /// The number that the video processor has for the range.
    pub open spec fn range(self) -> u8 {
        if self.full_range {
            VA_SOURCE_RANGE_FULL
        } else {
            VA_SOURCE_RANGE_REDUCED
        }
    }

    /// Streams of 720 rows and more are BT.709, others BT.601, and all of
    /// limited range. BT.709 is 1 in the usability information of a stream
    /// and 2 to the video processor, and BT.601 is 6 and 1. The limited range
    /// is 1 to the video processor, and the full one 2.
    pub proof fn a_color_has_its_numbers(self, height: int)
        ensures
            Self::inferred(height).matrix == if height >= 720 {
                Matrix::Bt709
            } else {
                Matrix::Bt601
            },
            !Self::inferred(height).full_range,
            Color::bt601() == (Color { matrix: Matrix::Bt601, full_range: false }),
            Color::bt709() == (Color { matrix: Matrix::Bt709, full_range: false }),
            self.matrix == Matrix::Bt709 ==> self.description() == (1u8, 1u8, 1u8)
                && self.standard() == 2,
            self.matrix == Matrix::Bt601 ==> self.description() == (6u8, 6u8, 6u8)
                && self.standard() == 1,
            self.range() == if self.full_range {
                2u8
            } else {
                1u8
            },
    {
    }

    /// Returns the number that the video processor has for the range.
    pub fn va_range(&self) -> (r: u8)
        ensures
            r == self.range(),
    {
        if self.full_range {
            VA_SOURCE_RANGE_FULL
        } else {
            VA_SOURCE_RANGE_REDUCED
        }
    }
}

/// The numbers that a color is asked for are those of its matrix and its range.
pub proof fn a_color_says_what_it_is(
    color: &Color,
    vui: (u8, u8, u8),
    standard: u32,
    range: u8,
    height: u32,
    inferred: Color,
)
    requires
        call_ensures(Color::vui, (color,), vui),
        call_ensures(Color::va_standard, (color,), standard),
        call_ensures(Color::va_range, (color,), range),
        call_ensures(Color::infer, (height,), inferred),
    ensures
        color.matrix == Matrix::Bt709 ==> vui == (1u8, 1u8, 1u8) && standard == 2,
        color.matrix == Matrix::Bt601 ==> vui == (6u8, 6u8, 6u8) && standard == 1,
        color.full_range ==> range == 2,
        !color.full_range ==> range == 1,
        height >= 720 ==> inferred.matrix == Matrix::Bt709,
        height < 720 ==> inferred.matrix == Matrix::Bt601,
        !inferred.full_range,
{
}

} // verus!
