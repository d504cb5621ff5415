use neobirth::colors::{dim, note_color, white, Color};
use neobirth::sequencer::pattern::{Pattern, PatternBank, Step};
use neobirth::ui::leds::{render, render_bank, NUM_LEDS};

const OFF: Color = Color { r: 0, g: 0, b: 0 };

#[test]
fn note_colors_follow_the_gradient() {
    assert_eq!(note_color(0), Color { r: 0x60, g: 0x00, b: 0x00 });
    assert_eq!(note_color(4), Color { r: 0x60, g: 0x60, b: 0x00 });
    assert_eq!(note_color(9), Color { r: 0x00, g: 0x20, b: 0x60 });
    assert_eq!(note_color(11), Color { r: 0x40, g: 0x00, b: 0x60 });
    assert_eq!(note_color(12), note_color(0));
    assert_eq!(note_color(255), note_color(255 % 12));
}

#[test]
fn dim_scales_by_factor_over_255() {
    let c = Color { r: 0x60, g: 0x20, b: 0xff };
    assert_eq!(dim(c, 0), OFF);
    assert_eq!(dim(c, 100), Color { r: 37, g: 12, b: 100 });
    assert_eq!(dim(c, 255), c);
    assert_eq!(dim(Color { r: 255, g: 255, b: 255 }, 255), Color { r: 255, g: 255, b: 255 });
    assert_eq!(dim(Color { r: 0x40, g: 0x10, b: 0x60 }, 100), Color { r: 25, g: 6, b: 37 });
}

#[test]
fn empty_pattern_shows_only_the_playhead() {
    let mut px = [Color { r: 1, g: 2, b: 3 }; NUM_LEDS];
    render(&mut px, &Pattern::new(), 3);
    for i in 0..NUM_LEDS {
        if i % 8 == 3 {
            assert_eq!(px[i], white());
        } else {
            assert_eq!(px[i], OFF);
        }
    }
    // A playhead outside the pattern leaves every LED dark.
    render(&mut px, &Pattern::new(), 9);
    assert!(px.iter().all(|c| *c == OFF));
}

#[test]
fn demo_pattern_display() {
    let mut bank = PatternBank::new();
    bank.load_demo();
    let p = bank.banks[0];
    let mut px = [OFF; NUM_LEDS];
    render(&mut px, &p, 1);
    // Step 0: C with accent, full brightness, red accent marker.
    let c0 = dim(note_color(0), 255);
    assert_eq!(c0, note_color(0));
    assert_eq!(px[0], c0);
    assert_eq!(px[8], c0);
    assert_eq!(px[16], OFF);
    assert_eq!(px[24], Color { r: 0x60, g: 0, b: 0 });
    // Step 1 is the playhead.
    for row in 0..4 {
        assert_eq!(px[row * 8 + 1], white());
    }
    // Step 2: C with slide, normal brightness, green slide marker.
    assert_eq!(px[2], dim(note_color(0), 100));
    assert_eq!(px[18], dim(Color { r: 0x00, g: 0x60, b: 0x20 }, 100));
    assert_eq!(px[26], OFF);
    // Step 4 is a rest.
    for row in 0..4 {
        assert_eq!(px[row * 8 + 4], OFF);
    }
    // Step 7: Ab.
    assert_eq!(px[7], dim(note_color(8), 100));
    assert_eq!(px[15], dim(Color { r: 0x00, g: 0x60, b: 0x60 }, 100));
}

#[test]
fn accent_and_slide_rows() {
    let mut p = Pattern::new();
    p.steps[5] = Step::with_note(5, 1, true, true);
    let mut px = [OFF; NUM_LEDS];
    render(&mut px, &p, 0);
    assert_eq!(px[5], note_color(5));
    assert_eq!(px[13], note_color(5));
    assert_eq!(px[21], Color { r: 0x00, g: 0x60, b: 0x20 });
    assert_eq!(px[29], Color { r: 0x60, g: 0, b: 0 });
}

#[test]
fn bank_display_colors() {
    let mut px = [OFF; NUM_LEDS];
    render_bank(&mut px, 1, 6);
    for i in 0..NUM_LEDS {
        if i == 6 {
            assert_eq!(px[i], white());
        } else {
            assert_eq!(px[i], Color { r: 0x60, g: 0x60, b: 0x00 });
        }
    }
    render_bank(&mut px, 6, 40);
    assert!(px.iter().all(|c| *c == Color { r: 0x60, g: 0x20, b: 0x00 }));
    render_bank(&mut px, 3, 0);
    assert_eq!(px[0], white());
    assert_eq!(px[1], Color { r: 0x60, g: 0x00, b: 0x00 });
    render_bank(&mut px, 0, 31);
    assert_eq!(px[0], white());
    assert_eq!(px[31], white());
}
