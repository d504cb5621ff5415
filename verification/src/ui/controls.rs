//! Keypad input handling for pattern editing.
//!
//! The NeoTrellis M4 has a 4x8 button grid, mapped as follows:
//!
//! - Row 0: Note selection (cycle through notes for each step column)
//! - Row 1: Accent toggle
//! - Row 2: Slide toggle
//! - Row 3: Utility (col 0 = clear step)

use vstd::prelude::*;

use crate::sequencer::pattern::{rest_step, Step};

verus! {

/// Number of button rows on the keypad.
pub const KEY_ROWS: usize = 4;

/// Number of button columns on the keypad.
pub const KEY_COLS: usize = 8;

/// Number of buttons on the keypad.
pub const NUM_KEYS: usize = 32;

/// Previous button state for edge detection.
pub struct KeypadState {
    /// Previous frame's button states, indexed as `[row][col]`.
    prev: [[bool; 8]; 4],
}

/// An action resulting from a keypress.
#[derive(Clone, Copy, Debug, PartialEq, Eq, Structural)]
pub enum KeyAction {
    /// Cycle the note value for step N.
    CycleNote(u8),
    /// Toggle accent on step N.
    ToggleAccent(u8),
    /// Toggle slide on step N.
    ToggleSlide(u8),
    /// Clear step N.
    ClearStep(u8),
}

/// The button with row-major index `k` (row `k / 8`, column `k % 8`)
/// is down in `grid`.
pub open spec fn key_down(grid: [[bool; 8]; 4], k: int) -> bool {
    grid[k / 8][k % 8]
}

/// The button with row-major index `k` was up in `prev` and is down in
/// `pressed`: a new press.
pub open spec fn is_rising(prev: [[bool; 8]; 4], pressed: [[bool; 8]; 4], k: int) -> bool {
    key_down(pressed, k) && !key_down(prev, k)
}

/// The row-major index of the first new press at or after index `k`,
/// or `NUM_KEYS` if there is none.
pub open spec fn first_rising_from(prev: [[bool; 8]; 4], pressed: [[bool; 8]; 4], k: int) -> int
    decreases NUM_KEYS - k,
{
    if k >= NUM_KEYS {
        NUM_KEYS as int
    } else if is_rising(prev, pressed, k) {
        k
    } else {
        first_rising_from(prev, pressed, k + 1)
    }
}

/// The action a new press of the button at `row`, `col` asks for.
pub open spec fn key_action(row: int, col: int) -> Option<KeyAction> {
    if row == 0 {
        Some(KeyAction::CycleNote(col as u8))
    } else if row == 1 {
        Some(KeyAction::ToggleAccent(col as u8))
    } else if row == 2 {
        Some(KeyAction::ToggleSlide(col as u8))
    } else if row == 3 && col == 0 {
        Some(KeyAction::ClearStep(0))
    } else {
        None
    }
}

/// What a scan reports: the action of the first new press in row-major
/// order, or `None` if no button was newly pressed.
pub open spec fn scan_result(prev: [[bool; 8]; 4], pressed: [[bool; 8]; 4]) -> Option<KeyAction> {
    let k = first_rising_from(prev, pressed, 0);
    if k < NUM_KEYS {
        key_action(k / 8, k % 8)
    } else {
        None
    }
}

/// The grid with no button down.
pub open spec fn all_released(grid: [[bool; 8]; 4]) -> bool {
    forall|k: int| 0 <= k < NUM_KEYS ==> !#[trigger] key_down(grid, k)
}

/// The step after `action` was applied to `step`.
pub open spec fn applied(step: Step, action: KeyAction) -> Step {
    match action {
        KeyAction::CycleNote(_) => {
            if step.rest {
                Step { note: 0, octave: step.octave, accent: step.accent, slide: step.slide, rest: false }
            } else {
                Step {
                    note: ((step.note + 1) % 12) as u8,
                    octave: step.octave,
                    accent: step.accent,
                    slide: step.slide,
                    rest: false,
                }
            }
        },
        KeyAction::ToggleAccent(_) => Step {
            note: step.note,
            octave: step.octave,
            accent: !step.accent,
            slide: step.slide,
            rest: step.rest,
        },
        KeyAction::ToggleSlide(_) => Step {
            note: step.note,
            octave: step.octave,
            accent: step.accent,
            slide: !step.slide,
            rest: step.rest,
        },
        KeyAction::ClearStep(_) => rest_step(),
    }
}

/// The properties of the first new press at or after `k`.
proof fn lemma_first_rising_from(prev: [[bool; 8]; 4], pressed: [[bool; 8]; 4], k: int)
    requires
        0 <= k <= NUM_KEYS,
    ensures
        k <= first_rising_from(prev, pressed, k) <= NUM_KEYS,
        first_rising_from(prev, pressed, k) < NUM_KEYS ==> is_rising(
            prev,
            pressed,
            first_rising_from(prev, pressed, k),
        ),
        forall|j: int|
            k <= j < first_rising_from(prev, pressed, k) ==> !#[trigger] is_rising(prev, pressed, j),
    decreases NUM_KEYS - k,
{
    if k < NUM_KEYS && !is_rising(prev, pressed, k) {
        lemma_first_rising_from(prev, pressed, k + 1);
    }
}

/// The step column an action refers to.
pub open spec fn action_column(action: KeyAction) -> u8 {
    match action {
        KeyAction::CycleNote(c) => c,
        KeyAction::ToggleAccent(c) => c,
        KeyAction::ToggleSlide(c) => c,
        KeyAction::ClearStep(c) => c,
    }
}

/// A button that stays down yields its action only once: scanning a grid
/// against itself (every button held since the previous scan) reports
/// nothing.
pub proof fn lemma_held_buttons_report_nothing(grid: [[bool; 8]; 4])
    ensures
        scan_result(grid, grid).is_none(),
{
    lemma_first_rising_from(grid, grid, 0);
}

/// A reported action comes from a button that was newly pressed, no
/// button earlier in row-major order was newly pressed, and the action
/// names the column of that button.
pub proof fn lemma_scan_reports_first_new_press(prev: [[bool; 8]; 4], pressed: [[bool; 8]; 4])
    ensures
        scan_result(prev, pressed) matches Some(action) ==> exists|k: int|
            0 <= k < NUM_KEYS && #[trigger] is_rising(prev, pressed, k) && (forall|j: int|
                0 <= j < k ==> !#[trigger] is_rising(prev, pressed, j)) && action_column(action)
                == k % 8,
        (forall|k: int| 0 <= k < NUM_KEYS ==> !#[trigger] is_rising(prev, pressed, k))
            ==> scan_result(prev, pressed).is_none(),
{
    lemma_first_rising_from(prev, pressed, 0);
    let k = first_rising_from(prev, pressed, 0);
    if k < NUM_KEYS {
        assert(is_rising(prev, pressed, k));
    }
}

/// The kind of action a scan reports is fixed by the key of the first
/// new press (row-major): row 0 cycles the note of that column, row 1
/// toggles its accent, row 2 toggles its slide, row 3 column 0 clears
/// step 0, and a first new press on row 3 columns 1-7 reports nothing.
pub proof fn lemma_scan_action_by_key(
    prev: [[bool; 8]; 4],
    pressed: [[bool; 8]; 4],
    row: int,
    col: int,
)
    requires
        0 <= row < KEY_ROWS,
        0 <= col < KEY_COLS,
        pressed[row][col],
        !prev[row][col],
        forall|j: int| 0 <= j < row * 8 + col ==> !#[trigger] is_rising(prev, pressed, j),
    ensures
        row == 0 ==> scan_result(prev, pressed) == Some(KeyAction::CycleNote(col as u8)),
        row == 1 ==> scan_result(prev, pressed) == Some(KeyAction::ToggleAccent(col as u8)),
        row == 2 ==> scan_result(prev, pressed) == Some(KeyAction::ToggleSlide(col as u8)),
        row == 3 && col == 0 ==> scan_result(prev, pressed) == Some(KeyAction::ClearStep(0)),
        row == 3 && col != 0 ==> scan_result(prev, pressed) == None::<KeyAction>,
{
    let k = row * 8 + col;
    assert(k / 8 == row && k % 8 == col);
    assert(is_rising(prev, pressed, k));
    lemma_first_rising_from(prev, pressed, 0);
    let f = first_rising_from(prev, pressed, 0);
    if f < k {
        assert(is_rising(prev, pressed, f));
        assert(false);
    }
    if f > k {
        assert(!is_rising(prev, pressed, k));
        assert(false);
    }
    assert(f == k);
}

/// A toggle flips exactly its own flag, on a rest as on a sounding step:
/// the accent key flips the accent and keeps note, octave, slide and
/// rest; the slide key flips the slide and keeps the rest.
pub proof fn lemma_toggle_flips_one_flag(step: Step, c: u8)
    ensures
        applied(step, KeyAction::ToggleAccent(c)).accent == !step.accent,
        applied(step, KeyAction::ToggleAccent(c)).slide == step.slide,
        applied(step, KeyAction::ToggleAccent(c)).note == step.note,
        applied(step, KeyAction::ToggleAccent(c)).octave == step.octave,
        applied(step, KeyAction::ToggleAccent(c)).rest == step.rest,
        applied(step, KeyAction::ToggleSlide(c)).slide == !step.slide,
        applied(step, KeyAction::ToggleSlide(c)).accent == step.accent,
        applied(step, KeyAction::ToggleSlide(c)).note == step.note,
        applied(step, KeyAction::ToggleSlide(c)).octave == step.octave,
        applied(step, KeyAction::ToggleSlide(c)).rest == step.rest,
{
}

/// The note key makes the step sound: a rest starts at note 0, a
/// sounding step moves up one semitone modulo 12; octave, accent and
/// slide are kept. The clear key gives note 0, octave 1, no accent, no
/// slide, rest.
pub proof fn lemma_note_and_clear_keys(step: Step, c: u8)
    ensures
        !applied(step, KeyAction::CycleNote(c)).rest,
        applied(step, KeyAction::CycleNote(c)).note == (if step.rest {
            0
        } else {
            (step.note + 1) % 12
        }),
        applied(step, KeyAction::CycleNote(c)).octave == step.octave,
        applied(step, KeyAction::CycleNote(c)).accent == step.accent,
        applied(step, KeyAction::CycleNote(c)).slide == step.slide,
        applied(step, KeyAction::ClearStep(c)) == (Step {
            note: 0,
            octave: 1,
            accent: false,
            slide: false,
            rest: true,
        }),
{
}

/// Toggling the accent, or the slide, twice gives back the step.
pub proof fn lemma_toggles_are_involutions(step: Step, c1: u8, c2: u8)
    ensures
        applied(applied(step, KeyAction::ToggleAccent(c1)), KeyAction::ToggleAccent(c2)) == step,
        applied(applied(step, KeyAction::ToggleSlide(c1)), KeyAction::ToggleSlide(c2)) == step,
{
}

/// Clearing a step makes it the default rest, whatever it was.
pub proof fn lemma_clear_gives_rest(step: Step, c: u8)
    ensures
        applied(step, KeyAction::ClearStep(c)) == rest_step(),
        applied(applied(step, KeyAction::ClearStep(c)), KeyAction::ClearStep(c)) == rest_step(),
{
}

/// The step after `n` presses of the note button.
pub open spec fn cycled(step: Step, n: nat) -> Step
    decreases n,
{
    if n == 0 {
        step
    } else {
        applied(cycled(step, (n - 1) as nat), KeyAction::CycleNote(0))
    }
}

/// Cycling the note keeps a step sounding, with its note in 0..12
/// and its other fields unchanged; a rest starts at note 0.
pub proof fn lemma_cycle_note_range(step: Step, c: u8)
    requires
        step.rest || step.note < 12,
    ensures
        !applied(step, KeyAction::CycleNote(c)).rest,
        applied(step, KeyAction::CycleNote(c)).note < 12,
        step.rest ==> applied(step, KeyAction::CycleNote(c)).note == 0,
        applied(step, KeyAction::CycleNote(c)).octave == step.octave,
        applied(step, KeyAction::CycleNote(c)).accent == step.accent,
        applied(step, KeyAction::CycleNote(c)).slide == step.slide,
{
}

/// The note of a sounding step after `n` further note presses.
proof fn lemma_cycled_note(step: Step, n: nat)
    requires
        !step.rest,
        step.note < 12,
    ensures
        !cycled(step, n).rest,
        cycled(step, n).note == (step.note + n) % 12,
        cycled(step, n).octave == step.octave,
        cycled(step, n).accent == step.accent,
        cycled(step, n).slide == step.slide,
    decreases n,
{
    if n > 0 {
        lemma_cycled_note(step, (n - 1) as nat);
        let prev = (step.note + n - 1) % 12;
        assert((prev + 1) % 12 == (step.note + n) % 12) by (nonlinear_arith)
            requires
                prev == (step.note + n - 1) % 12,
                n > 0,
        ;
    }
}

/// Twelve presses of the note button walk a sounding step through the
/// whole octave and back to where it started.
pub proof fn lemma_cycle_note_period(step: Step)
    requires
        !step.rest,
        step.note < 12,
    ensures
        cycled(step, 12) == step,
{
    lemma_cycled_note(step, 12);
}

impl KeypadState {
    /// The button states of the previous scan, indexed as `[row][col]`.
    pub closed spec fn previous(self) -> [[bool; 8]; 4] {
        self.prev
    }

    /// Create a new `KeypadState` with all buttons released.
    pub fn new() -> (state: Self)
        ensures
            all_released(state.previous()),
    {
        let row = [false; 8];
        let state = Self { prev: [row, row, row, row] };
        assert forall|k: int| 0 <= k < NUM_KEYS implies !#[trigger] key_down(state.prev, k) by {
            assert(state.prev[k / 8] == row);
        }
        state
    }

    /// Scan the current button state and detect rising edges.
    ///
    /// Returns the first action found for a newly pressed button,
    /// or `None` if no new presses occurred this scan.
    pub fn scan(&mut self, pressed: &[[bool; 8]; 4]) -> (result: Option<KeyAction>)
        ensures
            result == scan_result(old(self).previous(), *pressed),
            final(self).previous() == *pressed,
    {
        let ghost prev0 = self.prev;
        let ghost first = first_rising_from(prev0, *pressed, 0);
        proof {
            lemma_first_rising_from(prev0, *pressed, 0);
        }
        let mut result: Option<KeyAction> = None;
        let mut row: usize = 0;
        while row < KEY_ROWS
            invariant
                0 <= row <= KEY_ROWS,
                0 <= first <= NUM_KEYS,
                first < NUM_KEYS ==> is_rising(prev0, *pressed, first),
                forall|j: int| 0 <= j < first ==> !#[trigger] is_rising(prev0, *pressed, j),
                forall|r: int|
                    #![trigger self.prev[r]]
                    row <= r < KEY_ROWS ==> self.prev[r] == prev0[r],
                forall|r: int, c: int|
                    0 <= r < row && 0 <= c < KEY_COLS ==> #[trigger] self.prev[r][c]
                        == pressed[r][c],
                first < row * 8 ==> result == key_action(first / 8, first % 8),
                first >= row * 8 ==> result.is_none(),
            decreases KEY_ROWS - row,
        {
            let mut cur = self.prev[row];
            let ghost old_row = cur;
            let mut col: usize = 0;
            while col < KEY_COLS
                invariant
                    0 <= row < KEY_ROWS,
                    0 <= col <= KEY_COLS,
                    0 <= first <= NUM_KEYS,
                    first < NUM_KEYS ==> is_rising(prev0, *pressed, first),
                    forall|j: int| 0 <= j < first ==> !#[trigger] is_rising(prev0, *pressed, j),
                    old_row == prev0[row as int],
                    forall|c: int| col <= c < KEY_COLS ==> #[trigger] cur[c] == old_row[c],
                    forall|c: int| 0 <= c < col ==> #[trigger] cur[c] == pressed[row as int][c],
                    first < row * 8 + col ==> result == key_action(first / 8, first % 8),
                    first >= row * 8 + col ==> result.is_none(),
                decreases KEY_COLS - col,
            {
                let is_pressed = pressed[row][col];
                let rising = is_pressed && !cur[col];
                let ghost k: int = row * 8 + col;
                assert(k / 8 == row && k % 8 == col);
                assert(rising == is_rising(prev0, *pressed, k));
                if rising && result.is_none() {
                    result = match row {
                        0 => Some(KeyAction::CycleNote(col as u8)),
                        1 => Some(KeyAction::ToggleAccent(col as u8)),
                        2 => Some(KeyAction::ToggleSlide(col as u8)),
                        3 => {
                            // Only col 0 is mapped (clear step)
                            if col == 0 {
                                Some(KeyAction::ClearStep(col as u8))
                            } else {
                                None
                            }
                        },
                        _ => None,
                    };
                }
                cur[col] = is_pressed;
                col = col + 1;
            }
            self.prev[row] = cur;
            row = row + 1;
        }
        assert forall|r: int| 0 <= r < KEY_ROWS implies #[trigger] self.prev[r] == pressed[r] by {
            assert(self.prev[r] =~= pressed[r]);
        }
        assert(self.prev =~= *pressed);
        result
    }
}

/// Apply a key action to a sequencer step.
///
/// - `CycleNote`: if the step is a rest, activate it with note 0;
///   otherwise increment the note value modulo 12.
/// - `ToggleAccent`: flip the accent flag.
/// - `ToggleSlide`: flip the slide flag.
/// - `ClearStep`: reset the step to a default rest.
pub fn apply_action(step: &mut Step, action: &KeyAction)
    requires
        action is CycleNote && !old(step).rest ==> old(step).note < 255,
    ensures
        *final(step) == applied(*old(step), *action),
{
    match action {
        KeyAction::CycleNote(_) => {
            if step.rest {
                step.rest = false;
                step.note = 0;
            } else {
                step.note = (step.note + 1) % 12;
            }
        },
        KeyAction::ToggleAccent(_) => {
            step.accent = !step.accent;
        },
        KeyAction::ToggleSlide(_) => {
            step.slide = !step.slide;
        },
        KeyAction::ClearStep(_) => {
            *step = Step::new();
        },
    }
}

} // verus!
