//! LED display for sequencer state

use vstd::prelude::*;

use crate::colors::{black, dim, lemma_dim_darkens, note_color, red, slide_green, spec_dim, spec_note_color, white, yellow, orange, Color};
use crate::sequencer::pattern::{Pattern, STEPS_PER_PATTERN};

verus! {

/// Total number of LEDs on the NeoTrellis M4
pub const NUM_LEDS: usize = 32;

/// Brightness factor of an accented step (full brightness).
pub const ACCENT_BRIGHTNESS: u8 = 255;

/// Brightness factor of a step without accent (about 40%).
pub const NORMAL_BRIGHTNESS: u8 = 100;

/// The brightness factor of a step with or without accent.
pub open spec fn brightness(accent: bool) -> u8 {
    if accent {
        ACCENT_BRIGHTNESS
    } else {
        NORMAL_BRIGHTNESS
    }
}

/// The color of LED `index` (row `index / 8`, column `index % 8`) when
/// `pattern` is shown with the playhead at `current_step`:
///
/// - the playhead column is white in all four rows;
/// - a rest column is dark;
/// - otherwise rows 0 and 1 show the note's color, row 2 a green slide
///   marker and row 3 a red accent marker; the note color and the slide
///   marker are at full brightness on an accented step and at 100/255 of
///   it otherwise; rows 2 and 3 are dark where the step has no slide or
///   no accent.
pub open spec fn led_color(pattern: Pattern, current_step: u8, index: int) -> Color {
    let row = index / 8;
    let col = index % 8;
    let step = pattern.steps[col];
    if col == current_step as int {
        white()
    } else if step.rest {
        black()
    } else if row == 0 || row == 1 {
        spec_dim(spec_note_color(step.note), brightness(step.accent))
    } else if row == 2 {
        if step.slide {
            spec_dim(slide_green(), brightness(step.accent))
        } else {
            black()
        }
    } else if step.accent {
        red()
    } else {
        black()
    }
}

/// An accented, sounding step away from the playhead shows its note
/// color at full brightness in rows 0 and 1; without accent each channel
/// is scaled to 100/255 of the note color.
pub proof fn lemma_accent_full_brightness(pattern: Pattern, current_step: u8, col: int)
    requires
        0 <= col < STEPS_PER_PATTERN,
        col != current_step as int,
        !pattern.steps[col].rest,
    ensures
        pattern.steps[col].accent ==> led_color(pattern, current_step, col) == spec_note_color(
            pattern.steps[col].note,
        ),
        pattern.steps[col].accent ==> led_color(pattern, current_step, 8 + col) == spec_note_color(
            pattern.steps[col].note,
        ),
        !pattern.steps[col].accent ==> led_color(pattern, current_step, col) == spec_dim(
            spec_note_color(pattern.steps[col].note),
            NORMAL_BRIGHTNESS,
        ),
{
    lemma_dim_darkens(spec_note_color(pattern.steps[col].note), ACCENT_BRIGHTNESS);
    assert((8 + col) / 8 == 1 && (8 + col) % 8 == col);
    assert(col / 8 == 0 && col % 8 == col);
}

/// The playhead column is lit white (0x60, 0x60, 0x60) in all four rows,
/// and every other column whose step is a rest is dark (0, 0, 0) in all
/// four rows, whatever its note, accent and slide fields hold.
pub proof fn lemma_playhead_white_rests_dark(pattern: Pattern, current_step: u8, col: int, row: int)
    requires
        0 <= col < STEPS_PER_PATTERN,
        0 <= row < 4,
    ensures
        col == current_step as int ==> led_color(pattern, current_step, row * 8 + col) == (Color {
            r: 0x60,
            g: 0x60,
            b: 0x60,
        }),
        col != current_step as int && pattern.steps[col].rest ==> led_color(
            pattern,
            current_step,
            row * 8 + col,
        ) == (Color { r: 0, g: 0, b: 0 }),
{
    assert((row * 8 + col) / 8 == row && (row * 8 + col) % 8 == col);
}

/// Away from the playhead, a sounding step lights its slide marker
/// (row 2) exactly when it slides and its red accent marker
/// (0x60, 0, 0; row 3) exactly when it is accented.
pub proof fn lemma_markers(pattern: Pattern, current_step: u8, col: int)
    requires
        0 <= col < STEPS_PER_PATTERN,
        col != current_step as int,
        !pattern.steps[col].rest,
    ensures
        pattern.steps[col].accent ==> led_color(pattern, current_step, 24 + col) == (Color {
            r: 0x60,
            g: 0,
            b: 0,
        }),
        !pattern.steps[col].accent ==> led_color(pattern, current_step, 24 + col) == (Color {
            r: 0,
            g: 0,
            b: 0,
        }),
        !pattern.steps[col].slide ==> led_color(pattern, current_step, 16 + col) == (Color {
            r: 0,
            g: 0,
            b: 0,
        }),
        pattern.steps[col].slide && pattern.steps[col].accent ==> led_color(
            pattern,
            current_step,
            16 + col,
        ) == (Color { r: 0x00, g: 0x60, b: 0x20 }),
{
    assert((24 + col) / 8 == 3 && (24 + col) % 8 == col);
    assert((16 + col) / 8 == 2 && (16 + col) % 8 == col);
    lemma_dim_darkens(slide_green(), ACCENT_BRIGHTNESS);
}

/// Render the current sequencer state to the LED pixel buffer
pub fn render(pixels: &mut [Color; NUM_LEDS], pattern: &Pattern, current_step: u8)
    ensures
        forall|i: int| 0 <= i < NUM_LEDS ==> #[trigger] final(pixels)[i] == led_color(*pattern, current_step, i),
{
    let mut i: usize = 0;
    while i < NUM_LEDS
        invariant
            0 <= i <= NUM_LEDS,
            forall|j: int| 0 <= j < i ==> #[trigger] pixels[j] == black(),
        decreases NUM_LEDS - i,
    {
        pixels[i] = Color { r: 0, g: 0, b: 0 };
        i = i + 1;
    }
    let mut col: usize = 0;
    while col < STEPS_PER_PATTERN
        invariant
            0 <= col <= STEPS_PER_PATTERN,
            forall|j: int|
                0 <= j < NUM_LEDS && j % 8 < col ==> #[trigger] pixels[j] == led_color(
                    *pattern,
                    current_step,
                    j,
                ),
            forall|j: int| 0 <= j < NUM_LEDS && j % 8 >= col ==> #[trigger] pixels[j] == black(),
        decreases STEPS_PER_PATTERN - col,
    {
        let step = &pattern.steps[col];
        let is_playhead = col == current_step as usize;
        let ghost before = *pixels;
        if is_playhead {
            let mut row: usize = 0;
            while row < 4
                invariant
                    0 <= row <= 4,
                    0 <= col < STEPS_PER_PATTERN,
                    col == current_step,
                    forall|j: int|
                        0 <= j < NUM_LEDS && j % 8 != col ==> #[trigger] pixels[j] == before[j],
                    forall|j: int|
                        0 <= j < NUM_LEDS && j % 8 == col && j / 8 < row ==> #[trigger] pixels[j]
                            == white(),
                    forall|j: int|
                        0 <= j < NUM_LEDS && j % 8 == col && j / 8 >= row ==> #[trigger] pixels[j]
                            == before[j],
                decreases 4 - row,
            {
                pixels[row * 8 + col] = white();
                row = row + 1;
            }
        } else if !step.rest {
            let base_color = note_color(step.note);
            let brightness = if step.accent { ACCENT_BRIGHTNESS } else { NORMAL_BRIGHTNESS };
            pixels[col] = dim(base_color, brightness);
            pixels[8 + col] = dim(base_color, brightness);
            if step.slide {
                pixels[16 + col] = dim(Color { r: 0x00, g: 0x60, b: 0x20 }, brightness);
            }
            if step.accent {
                pixels[24 + col] = Color { r: 0x60, g: 0x00, b: 0x00 };
            }
        }
        assert forall|j: int|
            0 <= j < NUM_LEDS && j % 8 == col implies #[trigger] pixels[j] == led_color(
                *pattern,
                current_step,
                j,
            ) by {
            assert(j == (j / 8) * 8 + col);
        }
        col = col + 1;
    }
}

/// The color of bank `bank`: white, yellow, orange and red for banks 0
/// to 3, repeating.
pub open spec fn bank_color(bank: u8) -> Color {
    let b = bank % 4;
    if b == 0 {
        white()
    } else if b == 1 {
        yellow()
    } else if b == 2 {
        orange()
    } else {
        red()
    }
}

/// The color of LED `index` in the bank display: the playhead LED
/// `step` is white, every other LED shows the color of bank `bank`.
pub open spec fn bank_led_color(bank: u8, step: u8, index: int) -> Color {
    if index == step as int {
        white()
    } else {
        bank_color(bank)
    }
}

/// Fill the LED buffer with the color of the active bank, highlighting
/// the LED of the current step in white.
pub fn render_bank(pixels: &mut [Color; NUM_LEDS], bank: u8, step: u8)
    ensures
        forall|i: int| 0 <= i < NUM_LEDS ==> #[trigger] final(pixels)[i] == bank_led_color(bank, step, i),
{
    let bank_colors = [white(), yellow(), orange(), red()];
    let base_color = bank_colors[(bank as usize) % 4];
    let mut i: usize = 0;
    while i < NUM_LEDS
        invariant
            0 <= i <= NUM_LEDS,
            base_color == bank_color(bank),
            forall|j: int| 0 <= j < i ==> #[trigger] pixels[j] == bank_led_color(bank, step, j),
        decreases NUM_LEDS - i,
    {
        if i == step as usize {
            // Highlight current step with bright white
            pixels[i] = white();
        } else {
            pixels[i] = base_color;
        }
        i = i + 1;
    }
}

} // verus!
