//! 24-bit colours and the saturating arithmetic that blends them.

use vstd::prelude::*;

verus! {

/// The sum of two channels, held at 255.
pub open spec fn channel_add(a: u8, b: u8) -> u8 {
    if a + b > 255 {
        255u8
    } else {
        (a + b) as u8
    }
}

/// `channel * numerator / denominator`, rounded down and held at 255.
pub open spec fn channel_mul_div(channel: u8, numerator: u32, denominator: u32) -> u8 {
    if (channel * numerator) / (denominator as int) > 255 {
        255u8
    } else {
        ((channel * numerator) / (denominator as int)) as u8
    }
}

/// `a * b / 255`, rounded down: the product of two channels read as
/// fractions of 255.
pub open spec fn channel_normalised_mul(a: u8, b: u8) -> u8 {
    ((a * b) / 255) as u8
}

/// A colour of three 8-bit channels.
#[derive(Clone, Copy, Debug, PartialEq, Eq, Hash, Structural)]
pub struct Rgb24 {
    pub r: u8,
    pub g: u8,
    pub b: u8,
}

impl Rgb24 {
    pub fn new(r: u8, g: u8, b: u8) -> (c: Rgb24)
        ensures
            c == (Rgb24 { r, g, b }),
    {
        Rgb24 { r, g, b }
    }

    pub fn new_grey(c: u8) -> (grey: Rgb24)
        ensures
            grey == (Rgb24 { r: c, g: c, b: c }),
    {
        Rgb24 { r: c, g: c, b: c }
    }

    pub open spec fn saturating_add_spec(self, other: Rgb24) -> Rgb24 {
        Rgb24 {
            r: channel_add(self.r, other.r),
            g: channel_add(self.g, other.g),
            b: channel_add(self.b, other.b),
        }
    }

    /// Adds channel by channel; a sum above 255 becomes 255.
    #[verifier::when_used_as_spec(saturating_add_spec)]
    pub fn saturating_add(self, other: Rgb24) -> (sum: Rgb24)
        ensures
            sum == self.saturating_add_spec(other),
    {
        Rgb24 {
            r: add_channels(self.r, other.r),
            g: add_channels(self.g, other.g),
            b: add_channels(self.b, other.b),
        }
    }

    pub open spec fn saturating_scalar_mul_div_spec(
        self,
        numerator: u32,
        denominator: u32,
    ) -> Rgb24 {
        Rgb24 {
            r: channel_mul_div(self.r, numerator, denominator),
            g: channel_mul_div(self.g, numerator, denominator),
            b: channel_mul_div(self.b, numerator, denominator),
        }
    }

    /// Scales each channel by `numerator / denominator`, rounding down; a
    /// result above 255 becomes 255. The product is taken in 64 bits, so no
    /// numerator is too large for it.
    #[verifier::when_used_as_spec(saturating_scalar_mul_div_spec)]
    pub fn saturating_scalar_mul_div(self, numerator: u32, denominator: u32) -> (scaled: Rgb24)
        requires
            denominator != 0,
        ensures
            scaled == self.saturating_scalar_mul_div_spec(numerator, denominator),
    {
        Rgb24 {
            r: mul_div_channel(self.r, numerator, denominator),
            g: mul_div_channel(self.g, numerator, denominator),
            b: mul_div_channel(self.b, numerator, denominator),
        }
    }

    pub open spec fn normalised_mul_spec(self, other: Rgb24) -> Rgb24 {
        Rgb24 {
            r: channel_normalised_mul(self.r, other.r),
            g: channel_normalised_mul(self.g, other.g),
            b: channel_normalised_mul(self.b, other.b),
        }
    }

    /// Multiplies channel by channel, each channel read as a fraction of 255.
    #[verifier::when_used_as_spec(normalised_mul_spec)]
    pub fn normalised_mul(self, other: Rgb24) -> (product: Rgb24)
        ensures
            product == self.normalised_mul_spec(other),
    {
        Rgb24 {
            r: normalised_mul_channel(self.r, other.r),
            g: normalised_mul_channel(self.g, other.g),
            b: normalised_mul_channel(self.b, other.b),
        }
    }

    pub open spec fn normalised_scalar_mul_spec(self, scalar: u8) -> Rgb24 {
        Rgb24 {
            r: channel_normalised_mul(self.r, scalar),
            g: channel_normalised_mul(self.g, scalar),
            b: channel_normalised_mul(self.b, scalar),
        }
    }

    /// Multiplies every channel by `scalar`, read as a fraction of 255.
    #[verifier::when_used_as_spec(normalised_scalar_mul_spec)]
    pub fn normalised_scalar_mul(self, scalar: u8) -> (product: Rgb24)
        ensures
            product == self.normalised_scalar_mul_spec(scalar),
    {
        Rgb24 {
            r: normalised_mul_channel(self.r, scalar),
            g: normalised_mul_channel(self.g, scalar),
            b: normalised_mul_channel(self.b, scalar),
        }
    }
}

fn add_channels(a: u8, b: u8) -> (sum: u8)
    ensures
        sum == channel_add(a, b),
{
    let wide: u16 = a as u16 + b as u16;
    if wide > 255 {
        255
    } else {
        wide as u8
    }
}

fn mul_div_channel(channel: u8, numerator: u32, denominator: u32) -> (scaled: u8)
    requires
        denominator != 0,
    ensures
        scaled == channel_mul_div(channel, numerator, denominator),
{
    assert(0 <= channel * numerator <= 255 * 0xffff_ffff) by (nonlinear_arith)
        requires
            0 <= channel <= 255,
            0 <= numerator <= 0xffff_ffff,
    ;
    let wide: u64 = (channel as u64 * numerator as u64) / (denominator as u64);
    if wide > 255 {
        255
    } else {
        wide as u8
    }
}

fn normalised_mul_channel(a: u8, b: u8) -> (product: u8)
    ensures
        product == channel_normalised_mul(a, b),
{
    assert(0 <= a * b <= 255 * 255) by (nonlinear_arith)
        requires
            0 <= a <= 255,
            0 <= b <= 255,
    ;
    ((a as u32 * b as u32) / 255) as u8
}

} // verus!
