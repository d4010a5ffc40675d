use vstd::prelude::*;

use super::led_matrix::DisplayPattern;

verus! {

/// One step of an output sequence.
#[derive(Clone, Copy, Debug, PartialEq)]
pub enum OutputInstruction {
    /// Show a pattern on the LED matrix.
    DisplayPattern(&'static DisplayPattern),
    TurnOnStatusLED,
    TurnOffStatusLED,
    /// Hold the sequence until the timer is past this instant (microsecond ticks).
    Wait(u64),
    /// Blank the LED matrix.
    ClearDisplay,
}

} // verus!
