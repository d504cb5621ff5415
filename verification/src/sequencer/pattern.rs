//! Step sequencer pattern storage.
//!
//! Provides step, pattern, and pattern bank types for an acid-style
//! step sequencer with 8 steps per pattern and 2 banks.

use vstd::prelude::*;

verus! {

/// Number of steps in each pattern.
pub const STEPS_PER_PATTERN: usize = 8;

/// Number of pattern banks.
pub const NUM_BANKS: usize = 2;

/// Base MIDI note number (C2).
pub const BASE_NOTE: u8 = 36;

/// Lowest MIDI note held in the frequency table (C1).
pub const LOWEST_TABLE_NOTE: u8 = 24;

/// Highest MIDI note held in the frequency table (C5).
pub const HIGHEST_TABLE_NOTE: u8 = 72;

/// Number of entries in the frequency table (one per semitone, C1..=C5).
pub const FREQ_TABLE_LEN: usize = 49;

/// `x` clamped to the closed range `[lo, hi]`.
pub open spec fn clamp(x: int, lo: int, hi: int) -> int {
    if x < lo {
        lo
    } else if x > hi {
        hi
    } else {
        x
    }
}

/// Index into the frequency table (MIDI notes 24..=72) of `note`:
/// notes outside the table are clamped to the nearest boundary.
pub open spec fn table_index(note: int) -> int {
    clamp(note, LOWEST_TABLE_NOTE as int, HIGHEST_TABLE_NOTE as int) - LOWEST_TABLE_NOTE
}

/// Position in the frequency table of a MIDI note.
///
/// The table covers MIDI notes 24-72 (C1-C5); notes outside that range
/// are clamped to the nearest boundary. The firmware reads the
/// frequency in Hz at this position.
pub fn midi_table_index(note: u8) -> (index: usize)
    ensures
        index == table_index(note as int),
        index < FREQ_TABLE_LEN,
{
    let clamped = if note < LOWEST_TABLE_NOTE {
        LOWEST_TABLE_NOTE
    } else if note > HIGHEST_TABLE_NOTE {
        HIGHEST_TABLE_NOTE
    } else {
        note
    };
    (clamped - LOWEST_TABLE_NOTE) as usize
}

/// A single step in a sequencer pattern.
#[derive(Clone, Copy, Debug, PartialEq, Eq, Structural)]
pub struct Step {
    /// Note value (0-15), added to the base note.
    pub note: u8,
    /// Octave selector: 0 = -1 octave, 1 = base octave, 2 = +1 octave.
    pub octave: u8,
    /// Whether this step is accented (louder).
    pub accent: bool,
    /// Whether this step slides into the next.
    pub slide: bool,
    /// Whether this step is a rest (silence).
    pub rest: bool,
}

/// The default step: a rest in the base octave.
pub open spec fn rest_step() -> Step {
    Step { note: 0, octave: 1, accent: false, slide: false, rest: true }
}

/// A sounding step with the given note parameters.
pub open spec fn note_step(note: u8, octave: u8, accent: bool, slide: bool) -> Step {
    Step { note, octave, accent, slide, rest: false }
}

/// The octave selector read as a signed byte, minus one
/// (0 -> -1, 1 -> 0, 2 -> +1; bytes of 128 and above count as negative).
pub open spec fn octave_offset(octave: u8) -> int {
    (if octave < 128 { octave as int } else { octave as int - 256 }) - 1
}

/// The MIDI note a sounding step plays, clamped to the byte range 0..=127.
pub open spec fn step_midi_note(step: Step) -> int {
    clamp(BASE_NOTE + step.note + 12 * octave_offset(step.octave), 0, 127)
}

/// A step within its documented ranges (note 0-15, octave 0-2) plays
/// MIDI note `36 + note + 12 * (octave - 1)`, which lies in the
/// frequency table (24-72) without clamping.
pub proof fn lemma_documented_steps_in_table(step: Step)
    requires
        step.note <= 15,
        step.octave <= 2,
    ensures
        step_midi_note(step) == BASE_NOTE + step.note + 12 * (step.octave - 1),
        LOWEST_TABLE_NOTE <= step_midi_note(step) <= HIGHEST_TABLE_NOTE,
        table_index(step_midi_note(step)) == step_midi_note(step) - LOWEST_TABLE_NOTE,
{
}

impl Step {
    /// Create a new step defaulting to a rest.
    pub fn new() -> (step: Self)
        ensures
            step == rest_step(),
    {
        Self { note: 0, octave: 1, accent: false, slide: false, rest: true }
    }

    /// Create a step with the given note parameters (not a rest).
    pub fn with_note(note: u8, octave: u8, accent: bool, slide: bool) -> (step: Self)
        ensures
            step == note_step(note, octave, accent, slide),
    {
        Self { note, octave, accent, slide, rest: false }
    }

    /// The MIDI note this step plays, or `None` if it is a rest.
    ///
    /// The octave offset is added to the base note (C2) and the note
    /// value, and the sum is clamped to the MIDI range 0..=127. The
    /// firmware turns the note into a frequency through the table
    /// (see [`midi_table_index`]); a rest has frequency 0.
    pub fn midi_note(&self) -> (midi: Option<u8>)
        requires
            !self.rest ==> self.octave != 128,
        ensures
            self.rest ==> midi.is_none(),
            !self.rest ==> midi == Some(step_midi_note(*self) as u8),
    {
        if self.rest {
            return None;
        }
        let octave = self.octave;
        let signed: i8 = #[verifier::truncate] (octave as i8);
        assert(signed == (if octave < 128 { octave as int } else { octave as int - 256 }))
            by (bit_vector)
            requires
                signed == #[verifier::truncate] (octave as i8),
        ;
        let octave_offset: i8 = signed - 1;
        let midi_note: i16 = BASE_NOTE as i16 + self.note as i16 + (octave_offset as i16 * 12);
        let clamped = if midi_note < 0 {
            0u8
        } else if midi_note > 127 {
            127u8
        } else {
            midi_note as u8
        };
        Some(clamped)
    }
}

/// A pattern of steps for the sequencer.
#[derive(Clone, Copy)]
pub struct Pattern {
    /// The steps in this pattern.
    pub steps: [Step; STEPS_PER_PATTERN],
}

/// Every step of `pattern` is a rest.
pub open spec fn all_rests(pattern: Pattern) -> bool {
    forall|i: int| 0 <= i < STEPS_PER_PATTERN ==> #[trigger] pattern.steps[i] == rest_step()
}

impl Pattern {
    /// Create a new empty pattern (all rests).
    pub fn new() -> (pattern: Self)
        ensures
            all_rests(pattern),
    {
        let s = Step::new();
        Self { steps: [s, s, s, s, s, s, s, s] }
    }
}

/// A bank of patterns.
pub struct PatternBank {
    /// The patterns stored in this bank.
    pub banks: [Pattern; NUM_BANKS],
}

/// Step `i` of the classic acid bassline demo:
/// C(accent) C C(slide)->Eb rest F(accent) F(slide)->Ab.
pub open spec fn demo_step(i: int) -> Step {
    if i == 0 {
        note_step(0, 1, true, false)
    } else if i == 1 {
        note_step(0, 1, false, false)
    } else if i == 2 {
        note_step(0, 1, false, true)
    } else if i == 3 {
        note_step(3, 1, false, false)
    } else if i == 4 {
        rest_step()
    } else if i == 5 {
        note_step(5, 1, true, false)
    } else if i == 6 {
        note_step(5, 1, false, true)
    } else {
        note_step(8, 1, false, false)
    }
}

/// `pattern` holds the demo bassline.
pub open spec fn is_demo(pattern: Pattern) -> bool {
    forall|i: int| 0 <= i < STEPS_PER_PATTERN ==> #[trigger] pattern.steps[i] == demo_step(i)
}

impl PatternBank {
    /// Create a new pattern bank with all empty patterns.
    pub fn new() -> (bank: Self)
        ensures
            forall|b: int| 0 <= b < NUM_BANKS ==> all_rests(#[trigger] bank.banks[b]),
    {
        let p = Pattern::new();
        Self { banks: [p, p] }
    }

    /// Load a classic acid bassline demo into bank 0.
    ///
    /// Pattern: C(accent) C C(slide)->Eb rest F(accent) F(slide)->Ab
    pub fn load_demo(&mut self)
        ensures
            is_demo(final(self).banks[0]),
            final(self).banks[1] == old(self).banks[1],
    {
        // Note offsets from BASE_NOTE (C2=36): C = 0, Eb = 3, F = 5, Ab = 8
        let pattern = Pattern {
            steps: [
                Step::with_note(0, 1, true, false),
                Step::with_note(0, 1, false, false),
                Step::with_note(0, 1, false, true),
                Step::with_note(3, 1, false, false),
                Step::new(),
                Step::with_note(5, 1, true, false),
                Step::with_note(5, 1, false, true),
                Step::with_note(8, 1, false, false),
            ],
        };
        self.banks[0] = pattern;
    }
}

} // verus!
