use neobirth::sequencer::pattern::Step;
use neobirth::ui::controls::{apply_action, KeyAction, KeypadState};

fn grid_with(keys: &[(usize, usize)]) -> [[bool; 8]; 4] {
    let mut g = [[false; 8]; 4];
    for &(r, c) in keys {
        g[r][c] = true;
    }
    g
}

#[test]
fn no_press_no_action() {
    let mut k = KeypadState::new();
    assert_eq!(k.scan(&[[false; 8]; 4]), None);
}

#[test]
fn each_row_maps_to_its_action() {
    let mut k = KeypadState::new();
    assert_eq!(k.scan(&grid_with(&[(0, 5)])), Some(KeyAction::CycleNote(5)));
    let mut k = KeypadState::new();
    assert_eq!(k.scan(&grid_with(&[(1, 2)])), Some(KeyAction::ToggleAccent(2)));
    let mut k = KeypadState::new();
    assert_eq!(k.scan(&grid_with(&[(2, 7)])), Some(KeyAction::ToggleSlide(7)));
    let mut k = KeypadState::new();
    assert_eq!(k.scan(&grid_with(&[(3, 0)])), Some(KeyAction::ClearStep(0)));
    let mut k = KeypadState::new();
    assert_eq!(k.scan(&grid_with(&[(3, 4)])), None);
}

#[test]
fn held_button_reports_once() {
    let mut k = KeypadState::new();
    let g = grid_with(&[(1, 6)]);
    assert_eq!(k.scan(&g), Some(KeyAction::ToggleAccent(6)));
    assert_eq!(k.scan(&g), None);
    assert_eq!(k.scan(&[[false; 8]; 4]), None);
    assert_eq!(k.scan(&g), Some(KeyAction::ToggleAccent(6)));
}

#[test]
fn first_new_press_in_row_major_order_wins() {
    let mut k = KeypadState::new();
    assert_eq!(k.scan(&grid_with(&[(2, 1), (0, 7), (1, 0)])), Some(KeyAction::CycleNote(7)));
    // The held keys do not report again; a new press in a later row does.
    assert_eq!(k.scan(&grid_with(&[(2, 1), (0, 7), (1, 0), (2, 3)])), Some(KeyAction::ToggleSlide(3)));
}

#[test]
fn unmapped_utility_key_does_not_hide_clear() {
    let mut k = KeypadState::new();
    // Row 3 col 0 comes first in row-major order.
    assert_eq!(k.scan(&grid_with(&[(3, 0), (3, 5)])), Some(KeyAction::ClearStep(0)));
    let mut k = KeypadState::new();
    assert_eq!(k.scan(&grid_with(&[(3, 2), (3, 5)])), None);
}

#[test]
fn cycle_note_on_rest_starts_at_zero() {
    let mut s = Step { note: 9, octave: 2, accent: true, slide: false, rest: true };
    apply_action(&mut s, &KeyAction::CycleNote(0));
    assert_eq!(s, Step { note: 0, octave: 2, accent: true, slide: false, rest: false });
}

#[test]
fn cycle_note_wraps_modulo_twelve() {
    let mut s = Step::with_note(10, 1, false, false);
    apply_action(&mut s, &KeyAction::CycleNote(3));
    assert_eq!(s.note, 11);
    apply_action(&mut s, &KeyAction::CycleNote(3));
    assert_eq!(s.note, 0);
    let start = Step::with_note(4, 1, true, true);
    let mut t = start;
    for _ in 0..12 {
        apply_action(&mut t, &KeyAction::CycleNote(0));
    }
    assert_eq!(t, start);
    let mut big = Step::with_note(14, 1, false, false);
    apply_action(&mut big, &KeyAction::CycleNote(0));
    assert_eq!(big.note, 3);
}

#[test]
fn toggles_flip_and_undo() {
    let start = Step::with_note(2, 1, false, true);
    let mut s = start;
    apply_action(&mut s, &KeyAction::ToggleAccent(1));
    assert_eq!(s, Step::with_note(2, 1, true, true));
    apply_action(&mut s, &KeyAction::ToggleAccent(1));
    assert_eq!(s, start);
    apply_action(&mut s, &KeyAction::ToggleSlide(1));
    assert_eq!(s, Step::with_note(2, 1, false, false));
    apply_action(&mut s, &KeyAction::ToggleSlide(1));
    assert_eq!(s, start);
}

#[test]
fn clear_resets_to_rest() {
    let mut s = Step::with_note(7, 0, true, true);
    apply_action(&mut s, &KeyAction::ClearStep(0));
    assert_eq!(s, Step::new());
}
