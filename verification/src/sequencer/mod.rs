//! Sequencer engine for step-based pattern playback.
//!
//! Manages pattern advancement. The state shared with interrupt
//! context (current step, note trigger, active bank) is carried in
//! [`SharedState`]; the firmware copies it to and from its atomics
//! around each call.

pub mod pattern;

use vstd::prelude::*;

use crate::sequencer::pattern::{PatternBank, Step, NUM_BANKS, STEPS_PER_PATTERN};

verus! {

/// State shared between the sequencer clock, the audio interrupt and
/// the main loop.
#[derive(Clone, Copy, Debug, PartialEq, Eq, Structural)]
pub struct SharedState {
    /// The current step index (0-7), read by the display.
    pub current_step: u8,
    /// Set to `true` each time a new note is triggered.
    pub note_trigger: bool,
    /// The currently active pattern bank index.
    pub active_bank: u8,
}

/// How the board is held, as far as bank selection reads the
/// accelerometer.
#[derive(Clone, Copy, Debug, PartialEq, Eq, Structural)]
pub enum Tilt {
    /// Landscape, right side up
    LandscapeUp,
    /// Landscape, upside down
    LandscapeDown,
    /// Any other orientation
    Other,
}

/// Select the active bank from the board's orientation: landscape up
/// selects bank 0, landscape down bank 1; any other orientation keeps
/// the current bank.
pub fn select_bank(tilt: Tilt, shared: &mut SharedState)
    ensures
        final(shared).active_bank == (match tilt {
            Tilt::LandscapeUp => 0,
            Tilt::LandscapeDown => 1,
            Tilt::Other => old(shared).active_bank,
        }),
        final(shared).current_step == old(shared).current_step,
        final(shared).note_trigger == old(shared).note_trigger,
{
    match tilt {
        Tilt::LandscapeUp => {
            shared.active_bank = 0;
        },
        Tilt::LandscapeDown => {
            shared.active_bank = 1;
        },
        Tilt::Other => {},
    }
}

/// Step sequencer that advances through patterns.
pub struct Sequencer {
    /// Pattern bank storage.
    pub patterns: PatternBank,
    /// Current step index within the active pattern.
    pub step: u8,
}

/// The step after `step`, wrapping after the last step of a pattern.
pub open spec fn next_step_index(step: u8) -> u8 {
    ((step + 1) % (STEPS_PER_PATTERN as int)) as u8
}

/// The step index after `n` advances from `step`.
pub open spec fn step_after(step: u8, n: nat) -> u8
    decreases n,
{
    if n == 0 {
        step
    } else {
        next_step_index(step_after(step, (n - 1) as nat))
    }
}

/// After `n` advances from a step within the pattern, the step index
/// is `(step + n) % 8`.
proof fn lemma_step_after(step: u8, n: nat)
    requires
        step < STEPS_PER_PATTERN,
    ensures
        step_after(step, n) == (step + n) % (STEPS_PER_PATTERN as int),
    decreases n,
{
    if n > 0 {
        lemma_step_after(step, (n - 1) as nat);
        let prev = (step + n - 1) % 8;
        assert((prev + 1) % 8 == (step + n) % 8) by (nonlinear_arith)
            requires
                prev == (step + n - 1) % 8,
                n > 0,
        ;
    }
}

/// Playback is periodic: from any step of a pattern, eight advances
/// bring the sequencer back to the same step, and no fewer do.
pub proof fn lemma_advance_period(step: u8)
    requires
        step < STEPS_PER_PATTERN,
    ensures
        step_after(step, STEPS_PER_PATTERN as nat) == step,
        forall|n: nat| 0 < n < STEPS_PER_PATTERN ==> #[trigger] step_after(step, n) != step,
{
    lemma_step_after(step, STEPS_PER_PATTERN as nat);
    assert forall|n: nat| 0 < n < STEPS_PER_PATTERN implies #[trigger] step_after(step, n) != step by {
        lemma_step_after(step, n);
    }
}

impl Sequencer {
    /// The step of bank `bank` at the current step index.
    pub open spec fn step_in(self, bank: int) -> Step {
        self.patterns.banks[bank].steps[self.step as int]
    }

    /// Create a new sequencer with empty patterns.
    pub fn new() -> (seq: Self)
        ensures
            seq.step == 0,
            forall|b: int|
                0 <= b < NUM_BANKS ==> pattern::all_rests(#[trigger] seq.patterns.banks[b]),
    {
        Self { patterns: PatternBank::new(), step: 0 }
    }

    /// Advance to the next step, publishing the new step index and a note
    /// trigger in `shared`, and returning a reference to the new current
    /// step of the active bank.
    pub fn advance(&mut self, shared: &mut SharedState) -> (step: &Step)
        requires
            old(self).step < 255,
            old(shared).active_bank < NUM_BANKS,
        ensures
            final(self).step == next_step_index(old(self).step),
            final(self).step < STEPS_PER_PATTERN,
            final(self).patterns == old(self).patterns,
            final(shared).current_step == final(self).step,
            final(shared).note_trigger,
            final(shared).active_bank == old(shared).active_bank,
            *step == final(self).step_in(old(shared).active_bank as int),
    {
        self.step = (self.step + 1) % (STEPS_PER_PATTERN as u8);
        shared.current_step = self.step;
        shared.note_trigger = true;

        let bank = shared.active_bank as usize;
        &self.patterns.banks[bank].steps[self.step as usize]
    }

    /// Get a reference to the current step of the active bank without
    /// advancing.
    pub fn current_step(&self, shared: &SharedState) -> (step: &Step)
        requires
            self.step < STEPS_PER_PATTERN,
            shared.active_bank < NUM_BANKS,
        ensures
            *step == self.step_in(shared.active_bank as int),
    {
        let bank = shared.active_bank as usize;
        &self.patterns.banks[bank].steps[self.step as usize]
    }
}

} // verus!
