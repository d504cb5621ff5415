//! Oscillator waveform selection.

use vstd::prelude::*;

verus! {

/// Waveform type
#[derive(Clone, Copy, Debug, PartialEq, Eq, Structural)]
pub enum Waveform {
    /// Sawtooth waveform
    Saw,
    /// Square waveform
    Square,
}

} // verus!
