//! The dark/light decision, and the palette and options of a query.
use vstd::prelude::*;

use std::time::Duration;

use crate::color::Color;

verus! {

/// The bit pattern of the binary32 value 0.5, the perceptual middle gray.
pub const MIDDLE_GRAY_BITS: u32 = 0x3f00_0000;

/// The bit pattern of the binary32 value 1.0, white.
pub const WHITE_BITS: u32 = 0x3f80_0000;

/// Perceptual lightness L*, scaled to lie between 0.0 (black) and 1.0 (white), held as
/// the bit pattern of its IEEE 754 binary32 value. Between +0.0 and 1.0 the sign bit is
/// clear, and there the patterns, read as unsigned integers, order exactly as the values
/// do; equal values have equal patterns.
#[derive(Debug, Clone, Copy, PartialEq, Eq, Structural)]
pub struct Lightness {
    pub bits: u32,
}

impl Lightness {
    /// The lightness whose binary32 bit pattern is `bits`, if it lies in [+0.0, 1.0].
    pub fn from_bits(bits: u32) -> (r: Option<Lightness>)
        ensures
            r is Some <==> bits <= WHITE_BITS,
            r matches Some(l) ==> l.bits == bits,
    {
        if bits <= WHITE_BITS {
            Some(Lightness { bits })
        } else {
            None
        }
    }
}

/// The color scheme of the terminal.
#[derive(Debug, Clone, Copy, PartialEq, Eq, Structural)]
pub enum ColorScheme {
    /// The terminal uses a dark background with light text.
    Dark,
    /// The terminal uses a light background with dark text.
    Light,
}

/// Dark when the background is darker than the foreground; light when it is lighter, or
/// when both are equally light and lighter than middle gray; dark otherwise.
pub open spec fn scheme_for(foreground: Lightness, background: Lightness) -> ColorScheme {
    if background.bits < foreground.bits {
        ColorScheme::Dark
    } else if background.bits > foreground.bits || background.bits > MIDDLE_GRAY_BITS {
        ColorScheme::Light
    } else {
        ColorScheme::Dark
    }
}

/// Decides from the perceived lightness of the foreground and background colors
/// whether the terminal is dark or light. Light text on a darker background is dark,
/// dark text on a lighter one is light; where both are equally light, the scheme is
/// light only when they are lighter than middle gray.
pub fn color_scheme(foreground: Lightness, background: Lightness) -> (r: ColorScheme)
    ensures
        r == scheme_for(foreground, background),
        foreground.bits > background.bits ==> r == ColorScheme::Dark,
        background.bits > foreground.bits ==> r == ColorScheme::Light,
        foreground == background && background.bits <= MIDDLE_GRAY_BITS ==> r == ColorScheme::Dark,
        foreground == background && background.bits > MIDDLE_GRAY_BITS ==> r == ColorScheme::Light,
{
    if background.bits < foreground.bits {
        ColorScheme::Dark
    } else if background.bits > foreground.bits || background.bits > MIDDLE_GRAY_BITS {
        ColorScheme::Light
    } else {
        ColorScheme::Dark
    }
}

/// The color palette of the terminal: its foreground and background colors.
#[derive(Debug, Clone, Copy, PartialEq, Eq, Structural)]
pub struct ColorPalette {
    /// The foreground color of the terminal.
    pub foreground: Color,
    /// The background color of the terminal.
    pub background: Color,
}

/// Options for a query.
#[derive(Debug, Clone, Copy, PartialEq, Eq)]
pub struct QueryOptions {
    /// The maximum time spent waiting for the terminal's reply, over the whole query.
    /// Defaults to one second.
    pub timeout: Duration,
}

/// The duration of `secs` whole seconds.
pub uninterp spec fn seconds(secs: u64) -> Duration;

/// Relies on Duration::from_secs: the duration of `secs` whole seconds.
pub assume_specification[ Duration::from_secs ](secs: u64) -> (r: Duration)
    ensures
        r == seconds(secs),
;

impl Default for QueryOptions {
    fn default() -> (r: QueryOptions)
        ensures
            r.timeout == seconds(1),
    {
        QueryOptions { timeout: Duration::from_secs(1) }
    }
}

} // verus!
