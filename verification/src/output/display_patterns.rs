use vstd::prelude::*;

use super::led_matrix::{
    DisplayPattern,
    LEDMatrixDisplayable,
};

use crate::detectable_words::DetectableWord;

verus! {

/// The pattern that each word brings up on the LED matrix.
pub open spec fn word_pattern(word: DetectableWord) -> &'static DisplayPattern {
    match word {
        DetectableWord::Six => &SIX_PATTERN,
        DetectableWord::Seven => &SEVEN_PATTERN,
        DetectableWord::Up => &UP_PATTERN,
        DetectableWord::Down => &DOWN_PATTERN,
        DetectableWord::Right => &RIGHT_PATTERN,
        DetectableWord::Left => &LEFT_PATTERN,
        DetectableWord::On => &ON_PATTERN,
        DetectableWord::Off => &OFF_PATTERN,
        DetectableWord::Wow => &WOW_PATTERN,
        DetectableWord::Happy => &HAPPY_PATTERN,
        DetectableWord::Unknown => &UNKNOWN_PATTERN,
        DetectableWord::Silence => &SILENCE_PATTERN,
    }
}

impl LEDMatrixDisplayable for DetectableWord {
    open spec fn display_pattern(&self) -> DisplayPattern {
        *word_pattern(*self)
    }

    fn as_display_pattern(&self) -> (pattern: &'static DisplayPattern) {
        match self {
            Self::Six => &SIX_PATTERN,
            Self::Seven => &SEVEN_PATTERN,
            Self::Up => &UP_PATTERN,
            Self::Down => &DOWN_PATTERN,
            Self::Right => &RIGHT_PATTERN,
            Self::Left => &LEFT_PATTERN,
            Self::On => &ON_PATTERN,
            Self::Off => &OFF_PATTERN,
            Self::Wow => &WOW_PATTERN,
            Self::Happy => &HAPPY_PATTERN,
            Self::Unknown => &UNKNOWN_PATTERN,
            Self::Silence => &SILENCE_PATTERN,
        }
    }
}

/// All LEDs off.
pub const BLANK_PATTERN: DisplayPattern = [
    [false, false, false, false, false, false, false, false],
    [false, false, false, false, false, false, false, false],
    [false, false, false, false, false, false, false, false],
    [false, false, false, false, false, false, false, false],
    [false, false, false, false, false, false, false, false],
    [false, false, false, false, false, false, false, false],
    [false, false, false, false, false, false, false, false],
    [false, false, false, false, false, false, false, false],
];

pub const SIX_PATTERN: DisplayPattern = [
    [false, false, false, false, false, false, false, false],
    [false, false, true,  true,  true,  false, false, false],
    [false, true,  false, false, false, false, false, false],
    [false, true,  true,  true,  false, false, false, false],
    [false, true,  false, false, true,  false, false, false],
    [false, true,  false, false, true,  false, false, false],
    [false, false, true,  true,  false, false, false, false],
    [false, false, false, false, false, false, false, false],
];

pub const SEVEN_PATTERN: DisplayPattern = [
    [false, false, false, false, false, false, false, false],
    [false, true,  true,  true,  true,  true,  false, false],
    [false, false, false, false, false, true,  false, false],
    [false, false, false, false, true,  false, false, false],
    [false, false, false, true,  false, false, false, false],
    [false, false, false, true,  false, false, false, false],
    [false, false, false, true,  false, false, false, false],
    [false, false, false, false, false, false, false, false],
];

pub const UP_PATTERN: DisplayPattern = [
    [false, false, false, false, false, false, false, false],
    [false, false, false, true,  false, false, false, false],
    [false, false, true,  true,  true,  false, false, false],
    [false, true,  false, true,  false, true,  false, false],
    [false, false, false, true,  false, false, false, false],
    [false, false, false, true,  false, false, false, false],
    [false, false, false, true,  false, false, false, false],
    [false, false, false, false, false, false, false, false],
];

pub const DOWN_PATTERN: DisplayPattern = [
    [false, false, false, false, false, false, false, false],
    [false, false, false, true,  false, false, false, false],
    [false, false, false, true,  false, false, false, false],
    [false, false, false, true,  false, false, false, false],
    [false, true,  false, true,  false, true,  false, false],
    [false, false, true,  true,  true,  false, false, false],
    [false, false, false, true,  false, false, false, false],
    [false, false, false, false, false, false, false, false],
];

pub const RIGHT_PATTERN: DisplayPattern = [
    [false, false, false, false, false, false, false, false],
    [false, false, false, false, true,  false, false, false],
    [false, false, false, false, false, true,  false, false],
    [false, true,  true,  true,  true,  true,  true,  false],
    [false, false, false, false, false, true,  false, false],
    [false, false, false, false, true,  false, false, false],
    [false, false, false, false, false, false, false, false],
    [false, false, false, false, false, false, false, false],
];

pub const LEFT_PATTERN: DisplayPattern = [
    [false, false, false, false, false, false, false, false],
    [false, false, false, true,  false, false, false, false],
    [false, false, true,  false, false, false, false, false],
    [false, true,  true,  true,  true,  true,  true,  false],
    [false, false, true,  false, false, false, false, false],
    [false, false, false, true,  false, false, false, false],
    [false, false, false, false, false, false, false, false],
    [false, false, false, false, false, false, false, false],
];

pub const ON_PATTERN: DisplayPattern = [
    [false, false, false, false, false, false, false, false],
    [false, false, false, false, false, false, false, false],
    [false, false, false, false, false, false, false, true ],
    [false, false, false, false, false, false, true,  false],
    [false, true,  false, false, false, true,  false, false],
    [false, false, true,  false, true,  false, false, false],
    [false, false, false, true,  false, false, false, false],
    [false, false, false, false, false, false, false, false],
];

pub const OFF_PATTERN: DisplayPattern = [
    [false, false, false, false, false, false, false, false],
    [false, true,  false, false, false, true,  false, false],
    [false, false, true,  false, true,  false, false, false],
    [false, false, false, true,  false, false, false, false],
    [false, false, true,  false, true,  false, false, false],
    [false, true,  false, false, false, true,  false, false],
    [false, false, false, false, false, false, false, false],
    [false, false, false, false, false, false, false, false],
];

pub const WOW_PATTERN: DisplayPattern = [
    [false, false, false, false, false, false, false, false],
    [false, false, false, false, false, false, false, false],
    [false, true,  true,  false, false, true,  true,  false],
    [false, true,  true,  true,  true,  true,  true,  false],
    [false, true,  true,  true,  true,  true,  true,  false],
    [false, false, true,  true,  true,  true,  false, false],
    [false, false, false, true,  true,  false, false, false],
    [false, false, false, false, false, false, false, false],
];

/// Alternates with the "wow" pattern to make the heart pulse.
pub const WOW_PULSING_PATTERN: DisplayPattern = [
    [false, false, false, false, false, false, false, false],
    [false, true,  true,  false, false, true,  true,  false],
    [true,  true,  true,  true,  true,  true,  true,  true ],
    [true,  true,  true,  true,  true,  true,  true,  true ],
    [false, true,  true,  true,  true,  true,  true,  false],
    [false, false, true,  true,  true,  true,  false, false],
    [false, false, false, true,  true,  false, false, false],
    [false, false, false, false, false, false, false, false],
];

pub const HAPPY_PATTERN: DisplayPattern = [
    [false, false, true,  true,  true,  true,  false, false],
    [false, true,  false, false, false, false, true,  false],
    [true,  false, true,  false, false, true,  false, true ],
    [true,  false, false, false, false, false, false, true ],
    [true,  false, true,  false, false, true,  false, true ],
    [true,  false, false, true,  true,  false, false, true ],
    [false, true,  false, false, false, false, true,  false],
    [false, false, true,  true,  true,  true,  false, false],
];

pub const UNKNOWN_PATTERN: DisplayPattern = [
    [false, false, false, false, false, false, false, false],
    [false, false, true,  true,  true,  false, false, false],
    [false, true,  false, false, false, true,  false, false],
    [false, false, false, false, false, true,  false, false],
    [false, false, false, true,  true,  false, false, false],
    [false, false, false, true,  false, false, false, false],
    [false, false, false, false, false, false, false, false],
    [false, false, false, true,  false, false, false, false],
];

pub const SILENCE_PATTERN: DisplayPattern = [
    [false, false, false, false, false, false, false, false],
    [false, false, false, false, false, false, false, false],
    [false, false, false, false, false, false, false, false],
    [false, false, false, false, false, false, false, false],
    [false, true,  false, true,  false, true,  false, false],
    [false, false, false, false, false, false, false, false],
    [false, false, false, false, false, false, false, false],
    [false, false, false, false, false, false, false, false],
];

} // verus!
