use vstd::prelude::*;

use crate::xparsecolor::{parsed_color, xparsecolor};

verus! {

/// An RGB color with 16 bits per channel and an alpha channel.
#[derive(Debug, Clone, Copy, PartialEq, Eq, Hash, Structural)]
pub struct Color {
    /// Red
    pub red: u16,
    /// Green
    pub green: u16,
    /// Blue
    pub blue: u16,
    /// Alpha. Almost always the default `0xffff`.
    pub alpha: u16,
}

/// The value of an 8-bit channel that a 16-bit channel is scaled down to.
pub open spec fn scaled_to_u8(channel: u16) -> int {
    channel as int * 255 / 65535
}

/// The error returned when a string is not an accepted X11 color string.
#[derive(Debug, Clone, Copy, PartialEq, Eq, Structural)]
pub struct ColorParseError;

impl Color {
    pub open spec fn rgb_spec(red: u16, green: u16, blue: u16) -> Color {
        Color { red, green, blue, alpha: 0xffff }
    }

    /// Constructs a color from its red, green and blue channels, with the default alpha `0xffff`.
    pub fn rgb(red: u16, green: u16, blue: u16) -> (r: Color)
        ensures
            r == (Color { red, green, blue, alpha: 0xffff }),
    {
        Color { red, green, blue, alpha: 0xffff }
    }

    /// Parses the X11 color strings that terminals send in reply to a color query:
    /// `#<red><green><blue>`, `rgb:<red>/<green>/<blue>` and `rgba:<red>/<green>/<blue>/<alpha>`.
    pub fn parse(input: &[u8]) -> (r: Result<Color, ColorParseError>)
        ensures
            r == (match parsed_color(input@) {
                Some(c) => Ok(c),
                None => Err(ColorParseError),
            }),
    {
        match xparsecolor(input) {
            Some(c) => Ok(c),
            None => Err(ColorParseError),
        }
    }

    /// Converts the color to 8 bits per channel by scaling each channel. Alpha is dropped.
    pub fn scale_to_8bit(&self) -> (r: (u8, u8, u8))
        ensures
            r.0 as int == scaled_to_u8(self.red),
            r.1 as int == scaled_to_u8(self.green),
            r.2 as int == scaled_to_u8(self.blue),
    {
        (scale_to_u8(self.red), scale_to_u8(self.green), scale_to_u8(self.blue))
    }
}

/// Scales a 16-bit channel down to 8 bits.
pub fn scale_to_u8(channel: u16) -> (r: u8)
    ensures
        r as int == scaled_to_u8(channel),
{
    assert(channel as int * 255 / 65535 <= 255) by (nonlinear_arith)
        requires
            channel as int <= 65535,
    ;
    (channel as u32 * 255u32 / 65535u32) as u8
}

/// rgb's RGB struct: three public channel fields `r`, `g` and `b`.
#[verifier::external_type_specification]
#[verifier::reject_recursive_types(T)]
pub struct ExRgb<T>(rgb::RGB<T>);

impl From<Color> for rgb::RGB16 {
    fn from(value: Color) -> (r: rgb::RGB16)
        ensures
            r.r == value.red && r.g == value.green && r.b == value.blue,
    {
        rgb::RGB16 { r: value.red, g: value.green, b: value.blue }
    }
}

impl vstd::std_specs::convert::FromSpecImpl<Color> for rgb::RGB16 {
    open spec fn obeys_from_spec() -> bool {
        true
    }

    open spec fn from_spec(value: Color) -> rgb::RGB16 {
        rgb::RGB16 { r: value.red, g: value.green, b: value.blue }
    }
}

impl From<rgb::RGB16> for Color {
    fn from(value: rgb::RGB16) -> (r: Color)
        ensures
            r == Color::rgb_spec(value.r, value.g, value.b),
    {
        Color::rgb(value.r, value.g, value.b)
    }
}

impl vstd::std_specs::convert::FromSpecImpl<rgb::RGB16> for Color {
    open spec fn obeys_from_spec() -> bool {
        true
    }

    open spec fn from_spec(value: rgb::RGB16) -> Color {
        Color::rgb_spec(value.r, value.g, value.b)
    }
}

impl From<Color> for rgb::RGB8 {
    fn from(value: Color) -> (r: rgb::RGB8)
        ensures
            r.r as int == scaled_to_u8(value.red),
            r.g as int == scaled_to_u8(value.green),
            r.b as int == scaled_to_u8(value.blue),
    {
        let (r, g, b) = value.scale_to_8bit();
        rgb::RGB8 { r, g, b }
    }
}

impl vstd::std_specs::convert::FromSpecImpl<Color> for rgb::RGB8 {
    open spec fn obeys_from_spec() -> bool {
        true
    }

    open spec fn from_spec(value: Color) -> rgb::RGB8 {
        rgb::RGB8 {
            r: scaled_to_u8(value.red) as u8,
            g: scaled_to_u8(value.green) as u8,
            b: scaled_to_u8(value.blue) as u8,
        }
    }
}

/// anstyle's RgbColor: a tuple of three public 8-bit channels.
#[verifier::external_type_specification]
pub struct ExRgbColor(anstyle::RgbColor);

impl From<Color> for anstyle::RgbColor {
    fn from(value: Color) -> (r: anstyle::RgbColor)
        ensures
            r.0 as int == scaled_to_u8(value.red),
            r.1 as int == scaled_to_u8(value.green),
            r.2 as int == scaled_to_u8(value.blue),
    {
        let (r, g, b) = value.scale_to_8bit();
        anstyle::RgbColor(r, g, b)
    }
}

impl vstd::std_specs::convert::FromSpecImpl<Color> for anstyle::RgbColor {
    open spec fn obeys_from_spec() -> bool {
        true
    }

    open spec fn from_spec(value: Color) -> anstyle::RgbColor {
        anstyle::RgbColor(
            scaled_to_u8(value.red) as u8,
            scaled_to_u8(value.green) as u8,
            scaled_to_u8(value.blue) as u8,
        )
    }
}

} // verus!
