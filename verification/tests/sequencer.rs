use neobirth::sequencer::pattern::{
    midi_table_index, Pattern, PatternBank, Step, BASE_NOTE, NUM_BANKS, STEPS_PER_PATTERN,
};
use neobirth::sequencer::{select_bank, Sequencer, SharedState, Tilt};

fn rest() -> Step {
    Step { note: 0, octave: 1, accent: false, slide: false, rest: true }
}

#[test]
fn step_new_is_a_rest() {
    assert_eq!(Step::new(), rest());
}

#[test]
fn step_with_note_sounds() {
    let s = Step::with_note(5, 2, true, false);
    assert_eq!(s, Step { note: 5, octave: 2, accent: true, slide: false, rest: false });
}

#[test]
fn new_pattern_and_bank_are_all_rests() {
    let p = Pattern::new();
    for s in p.steps.iter() {
        assert_eq!(*s, rest());
    }
    let b = PatternBank::new();
    assert_eq!(b.banks.len(), NUM_BANKS);
    for p in b.banks.iter() {
        for s in p.steps.iter() {
            assert_eq!(*s, rest());
        }
    }
}

#[test]
fn load_demo_fills_bank_zero_only() {
    let mut b = PatternBank::new();
    b.load_demo();
    let expected = [
        Step::with_note(0, 1, true, false),
        Step::with_note(0, 1, false, false),
        Step::with_note(0, 1, false, true),
        Step::with_note(3, 1, false, false),
        Step::new(),
        Step::with_note(5, 1, true, false),
        Step::with_note(5, 1, false, true),
        Step::with_note(8, 1, false, false),
    ];
    assert_eq!(b.banks[0].steps, expected);
    for s in b.banks[1].steps.iter() {
        assert_eq!(*s, rest());
    }
}

#[test]
fn midi_table_index_clamps() {
    assert_eq!(midi_table_index(0), 0);
    assert_eq!(midi_table_index(23), 0);
    assert_eq!(midi_table_index(24), 0);
    assert_eq!(midi_table_index(36), 12);
    assert_eq!(midi_table_index(69), 45);
    assert_eq!(midi_table_index(72), 48);
    assert_eq!(midi_table_index(73), 48);
    assert_eq!(midi_table_index(255), 48);
}

#[test]
fn midi_note_of_steps() {
    assert_eq!(Step::new().midi_note(), None);
    // A rest never reads its octave, even the byte 128.
    assert_eq!(Step { note: 3, octave: 128, accent: false, slide: false, rest: true }.midi_note(), None);
    assert_eq!(Step::with_note(0, 1, false, false).midi_note(), Some(BASE_NOTE));
    assert_eq!(Step::with_note(3, 0, false, false).midi_note(), Some(27));
    assert_eq!(Step::with_note(15, 2, false, false).midi_note(), Some(63));
    // Large values clamp to the MIDI range.
    assert_eq!(Step::with_note(255, 2, false, false).midi_note(), Some(127));
    // An octave byte of 255 reads as -1, two octaves down.
    assert_eq!(Step::with_note(0, 255, false, false).midi_note(), Some(12));
    // Clamped below at zero.
    assert_eq!(Step::with_note(0, 200, false, false).midi_note(), Some(0));
}

#[test]
fn sequencer_new_starts_at_step_zero() {
    let seq = Sequencer::new();
    assert_eq!(seq.step, 0);
    for p in seq.patterns.banks.iter() {
        for s in p.steps.iter() {
            assert_eq!(*s, rest());
        }
    }
}

#[test]
fn advance_publishes_step_and_trigger() {
    let mut seq = Sequencer::new();
    seq.patterns.load_demo();
    let mut shared = SharedState { current_step: 0, note_trigger: false, active_bank: 0 };
    let s = *seq.advance(&mut shared);
    assert_eq!(s, Step::with_note(0, 1, false, false));
    assert_eq!(seq.step, 1);
    assert_eq!(shared, SharedState { current_step: 1, note_trigger: true, active_bank: 0 });
    assert_eq!(*seq.current_step(&shared), s);
}

#[test]
fn advance_reads_the_active_bank() {
    let mut seq = Sequencer::new();
    seq.patterns.load_demo();
    seq.patterns.banks[1].steps[3] = Step::with_note(7, 2, true, true);
    let mut shared = SharedState { current_step: 0, note_trigger: false, active_bank: 1 };
    seq.step = 2;
    let s = *seq.advance(&mut shared);
    assert_eq!(s, Step::with_note(7, 2, true, true));
    assert_eq!(seq.step, 3);
    shared.active_bank = 0;
    assert_eq!(*seq.current_step(&shared), Step::with_note(3, 1, false, false));
}

#[test]
fn advance_wraps_after_eight_steps() {
    let mut seq = Sequencer::new();
    let mut shared = SharedState { current_step: 0, note_trigger: false, active_bank: 0 };
    let mut seen = Vec::new();
    for _ in 0..STEPS_PER_PATTERN {
        seq.advance(&mut shared);
        seen.push(seq.step);
    }
    assert_eq!(seen, vec![1, 2, 3, 4, 5, 6, 7, 0]);
    assert_eq!(shared.current_step, 0);
}

#[test]
fn advance_from_out_of_range_step_wraps() {
    let mut seq = Sequencer::new();
    seq.step = 200;
    let mut shared = SharedState { current_step: 0, note_trigger: false, active_bank: 0 };
    seq.advance(&mut shared);
    assert_eq!(seq.step, 201 % 8);
}

#[test]
fn select_bank_from_tilt() {
    let mut shared = SharedState { current_step: 4, note_trigger: true, active_bank: 0 };
    select_bank(Tilt::LandscapeDown, &mut shared);
    assert_eq!(shared.active_bank, 1);
    select_bank(Tilt::Other, &mut shared);
    assert_eq!(shared.active_bank, 1);
    select_bank(Tilt::LandscapeUp, &mut shared);
    assert_eq!(shared, SharedState { current_step: 4, note_trigger: true, active_bank: 0 });
}
