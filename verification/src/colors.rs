//! Color Schemes

use vstd::prelude::*;

verus! {

/// An RGB color for one NeoPixel, 8 bits per channel.
#[derive(Clone, Copy, Debug, PartialEq, Eq, Structural)]
pub struct Color {
    /// Red channel
    pub r: u8,
    /// Green channel
    pub g: u8,
    /// Blue channel
    pub b: u8,
}

/// Off
#[verifier::allow_in_spec]
pub fn black() -> Color
    returns
        (Color { r: 0x00, g: 0x00, b: 0x00 }),
{
    Color { r: 0x00, g: 0x00, b: 0x00 }
}

/// White
#[verifier::allow_in_spec]
pub fn white() -> Color
    returns
        (Color { r: 0x60, g: 0x60, b: 0x60 }),
{
    Color { r: 0x60, g: 0x60, b: 0x60 }
}

/// Yellow
#[verifier::allow_in_spec]
pub fn yellow() -> Color
    returns
        (Color { r: 0x60, g: 0x60, b: 0x00 }),
{
    Color { r: 0x60, g: 0x60, b: 0x00 }
}

/// Orange
#[verifier::allow_in_spec]
pub fn orange() -> Color
    returns
        (Color { r: 0x60, g: 0x20, b: 0x00 }),
{
    Color { r: 0x60, g: 0x20, b: 0x00 }
}

/// Red
#[verifier::allow_in_spec]
pub fn red() -> Color
    returns
        (Color { r: 0x60, g: 0x00, b: 0x00 }),
{
    Color { r: 0x60, g: 0x00, b: 0x00 }
}

/// Green used to mark a slide
#[verifier::allow_in_spec]
pub fn slide_green() -> Color
    returns
        (Color { r: 0x00, g: 0x60, b: 0x20 }),
{
    Color { r: 0x00, g: 0x60, b: 0x20 }
}

/// The color of pitch class `pc` (0 = C .. 11 = B) on the warm to cool
/// gradient; classes above 11 get the color of B.
pub open spec fn gradient(pc: int) -> Color {
    if pc == 0 {
        Color { r: 0x60, g: 0x00, b: 0x00 }
    } else if pc == 1 {
        Color { r: 0x60, g: 0x10, b: 0x00 }
    } else if pc == 2 {
        Color { r: 0x60, g: 0x20, b: 0x00 }
    } else if pc == 3 {
        Color { r: 0x60, g: 0x40, b: 0x00 }
    } else if pc == 4 {
        Color { r: 0x60, g: 0x60, b: 0x00 }
    } else if pc == 5 {
        Color { r: 0x20, g: 0x60, b: 0x00 }
    } else if pc == 6 {
        Color { r: 0x00, g: 0x60, b: 0x00 }
    } else if pc == 7 {
        Color { r: 0x00, g: 0x60, b: 0x20 }
    } else if pc == 8 {
        Color { r: 0x00, g: 0x60, b: 0x60 }
    } else if pc == 9 {
        Color { r: 0x00, g: 0x20, b: 0x60 }
    } else if pc == 10 {
        Color { r: 0x20, g: 0x00, b: 0x60 }
    } else {
        Color { r: 0x40, g: 0x00, b: 0x60 }
    }
}

/// The color of MIDI note value `note`: its pitch class on the gradient.
pub open spec fn spec_note_color(note: u8) -> Color {
    gradient((note % 12) as int)
}

/// One channel scaled by `factor / 255`, rounded down: a factor of 255
/// is full brightness.
pub open spec fn dim_channel(value: u8, factor: u8) -> u8 {
    ((value * factor) / 255) as u8
}

/// `color` with each channel scaled by `factor / 255`, rounded down.
pub open spec fn spec_dim(color: Color, factor: u8) -> Color {
    Color {
        r: dim_channel(color.r, factor),
        g: dim_channel(color.g, factor),
        b: dim_channel(color.b, factor),
    }
}

/// The twelve pitch classes get twelve different colors.
pub proof fn lemma_note_colors_distinct(a: u8, b: u8)
    requires
        a % 12 != b % 12,
    ensures
        spec_note_color(a) != spec_note_color(b),
{
}

/// The gradient runs warm to cool: C is red (0x60, 0, 0), D orange
/// (0x60, 0x20, 0), E yellow (0x60, 0x60, 0), F yellow-green
/// (0x20, 0x60, 0), F# green (0, 0x60, 0), Ab cyan (0, 0x60, 0x60), A
/// blue-cyan (0, 0x20, 0x60) and B violet (0x40, 0, 0x60); C#, Eb, G
/// and Bb lie between their neighbours ((0x60, 0x10, 0), (0x60, 0x40, 0),
/// (0, 0x60, 0x20), (0x20, 0, 0x60)).
pub proof fn lemma_note_color_gradient(note: u8)
    ensures
        note % 12 == 0 ==> spec_note_color(note) == (Color { r: 0x60, g: 0x00, b: 0x00 }),
        note % 12 == 1 ==> spec_note_color(note) == (Color { r: 0x60, g: 0x10, b: 0x00 }),
        note % 12 == 2 ==> spec_note_color(note) == (Color { r: 0x60, g: 0x20, b: 0x00 }),
        note % 12 == 3 ==> spec_note_color(note) == (Color { r: 0x60, g: 0x40, b: 0x00 }),
        note % 12 == 4 ==> spec_note_color(note) == (Color { r: 0x60, g: 0x60, b: 0x00 }),
        note % 12 == 5 ==> spec_note_color(note) == (Color { r: 0x20, g: 0x60, b: 0x00 }),
        note % 12 == 6 ==> spec_note_color(note) == (Color { r: 0x00, g: 0x60, b: 0x00 }),
        note % 12 == 7 ==> spec_note_color(note) == (Color { r: 0x00, g: 0x60, b: 0x20 }),
        note % 12 == 8 ==> spec_note_color(note) == (Color { r: 0x00, g: 0x60, b: 0x60 }),
        note % 12 == 9 ==> spec_note_color(note) == (Color { r: 0x00, g: 0x20, b: 0x60 }),
        note % 12 == 10 ==> spec_note_color(note) == (Color { r: 0x20, g: 0x00, b: 0x60 }),
        note % 12 == 11 ==> spec_note_color(note) == (Color { r: 0x40, g: 0x00, b: 0x60 }),
        note % 12 == 0 ==> spec_note_color(note) == red(),
        note % 12 == 2 ==> spec_note_color(note) == orange(),
        note % 12 == 4 ==> spec_note_color(note) == yellow(),
{
}

/// Note colors repeat every octave: a note and the note twelve
/// semitones above it get the same color.
pub proof fn lemma_note_color_octave(note: u8)
    requires
        note + 12 <= 255,
    ensures
        spec_note_color((note + 12) as u8) == spec_note_color(note),
{
}

/// A scaled channel is the exact quotient and never exceeds the channel.
proof fn lemma_dim_channel(value: u8, factor: u8)
    ensures
        dim_channel(value, factor) as int == (value * factor) / 255,
        dim_channel(value, factor) <= value,
        dim_channel(value, 255) == value,
{
    assert((value * factor) / 255 <= value) by (nonlinear_arith)
        requires
            factor <= 255,
            value >= 0,
    ;
    assert((value * 255) / 255 == value) by (nonlinear_arith);
}

/// Dimming never brightens a channel, a factor of 255 (full
/// brightness) keeps the color, and a factor of zero turns it off.
pub proof fn lemma_dim_darkens(color: Color, factor: u8)
    ensures
        spec_dim(color, factor).r <= color.r,
        spec_dim(color, factor).g <= color.g,
        spec_dim(color, factor).b <= color.b,
        spec_dim(color, 255) == color,
        spec_dim(color, 0) == black(),
{
    lemma_dim_channel(color.r, factor);
    lemma_dim_channel(color.g, factor);
    lemma_dim_channel(color.b, factor);
    lemma_dim_channel(color.r, 0);
    lemma_dim_channel(color.g, 0);
    lemma_dim_channel(color.b, 0);
}

/// Map a note value (0-11) to a color on a warm→cool gradient
pub fn note_color(note: u8) -> (color: Color)
    ensures
        color == spec_note_color(note),
{
    match note % 12 {
        0 => Color { r: 0x60, g: 0x00, b: 0x00 },  // C  - red
        1 => Color { r: 0x60, g: 0x10, b: 0x00 },  // C#
        2 => Color { r: 0x60, g: 0x20, b: 0x00 },  // D  - orange
        3 => Color { r: 0x60, g: 0x40, b: 0x00 },  // Eb
        4 => Color { r: 0x60, g: 0x60, b: 0x00 },  // E  - yellow
        5 => Color { r: 0x20, g: 0x60, b: 0x00 },  // F
        6 => Color { r: 0x00, g: 0x60, b: 0x00 },  // F#
        7 => Color { r: 0x00, g: 0x60, b: 0x20 },  // G
        8 => Color { r: 0x00, g: 0x60, b: 0x60 },  // Ab
        9 => Color { r: 0x00, g: 0x20, b: 0x60 },  // A
        10 => Color { r: 0x20, g: 0x00, b: 0x60 },  // Bb
        _ => Color { r: 0x40, g: 0x00, b: 0x60 },  // B
    }
}

/// Scale one channel by `factor / 255` in 16-bit arithmetic.
fn dim_value(value: u8, factor: u8) -> (dimmed: u8)
    ensures
        dimmed == dim_channel(value, factor),
        dimmed <= value,
{
    assert(value as int * factor as int <= 255 * 255) by (nonlinear_arith)
        requires
            value <= 255,
            factor <= 255,
    ;
    let product: u16 = value as u16 * factor as u16;
    proof {
        lemma_dim_channel(value, factor);
    }
    (product / 255) as u8
}

/// Dim a color to a fraction of its brightness: each channel is scaled
/// by `factor / 255`, so a factor of 255 is full brightness.
pub fn dim(color: Color, factor: u8) -> (dimmed: Color)
    ensures
        dimmed == spec_dim(color, factor),
        factor == 255 ==> dimmed == color,
{
    proof {
        lemma_dim_darkens(color, factor);
    }
    Color {
        r: dim_value(color.r, factor),
        g: dim_value(color.g, factor),
        b: dim_value(color.b, factor),
    }
}

} // verus!
