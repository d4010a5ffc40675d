use wake_word_detector::detectable_words::DetectableWord;
use wake_word_detector::inference::tflite::Status;
use wake_word_detector::output::display_patterns::{
    BLANK_PATTERN, DOWN_PATTERN, HAPPY_PATTERN, LEFT_PATTERN, OFF_PATTERN, ON_PATTERN,
    RIGHT_PATTERN, SEVEN_PATTERN, SILENCE_PATTERN, SIX_PATTERN, UNKNOWN_PATTERN, UP_PATTERN,
    WOW_PATTERN, WOW_PULSING_PATTERN,
};
use wake_word_detector::output::led_matrix::LEDMatrixDisplayable;

const ALL_WORDS: [DetectableWord; 12] = [
    DetectableWord::Six,
    DetectableWord::Seven,
    DetectableWord::Up,
    DetectableWord::Down,
    DetectableWord::Right,
    DetectableWord::Left,
    DetectableWord::On,
    DetectableWord::Off,
    DetectableWord::Wow,
    DetectableWord::Happy,
    DetectableWord::Unknown,
    DetectableWord::Silence,
];

#[test]
fn only_target_words_are_valid() {
    for word in ALL_WORDS {
        let expected = !matches!(word, DetectableWord::Unknown | DetectableWord::Silence);
        assert_eq!(word.is_valid(), expected, "{:?}", word);
    }
}

#[test]
fn words_spell_their_names() {
    let names = [
        "six", "seven", "up", "down", "right", "left", "on", "off", "wow", "happy", "unknown",
        "silence",
    ];
    for (word, name) in ALL_WORDS.iter().zip(names.iter()) {
        assert_eq!(word.as_str(), *name);
    }
}

#[test]
fn from_index_follows_model_output_order() {
    for (index, word) in ALL_WORDS.iter().enumerate() {
        assert_eq!(DetectableWord::from_index(index), Some(*word));
    }
    assert_eq!(DetectableWord::from_index(12), None);
    assert_eq!(DetectableWord::from_index(usize::MAX), None);
}

#[test]
fn each_word_has_its_pattern() {
    let patterns = [
        &SIX_PATTERN,
        &SEVEN_PATTERN,
        &UP_PATTERN,
        &DOWN_PATTERN,
        &RIGHT_PATTERN,
        &LEFT_PATTERN,
        &ON_PATTERN,
        &OFF_PATTERN,
        &WOW_PATTERN,
        &HAPPY_PATTERN,
        &UNKNOWN_PATTERN,
        &SILENCE_PATTERN,
    ];
    for (word, pattern) in ALL_WORDS.iter().zip(patterns.iter()) {
        assert_eq!(word.as_display_pattern(), *pattern);
    }
}

#[test]
fn pattern_spot_checks() {
    assert!(BLANK_PATTERN.iter().all(|row| row.iter().all(|lit| !lit)));
    assert_eq!(SIX_PATTERN[1], [false, false, true, true, true, false, false, false]);
    assert_eq!(HAPPY_PATTERN[0], [false, false, true, true, true, true, false, false]);
    assert_eq!(WOW_PULSING_PATTERN[2], [true; 8]);
    assert_eq!(ON_PATTERN[2][7], true);
    assert_eq!(UNKNOWN_PATTERN[7][3], true);
}

#[test]
fn status_codes_round_trip() {
    let statuses = [
        (Status::Success, 0),
        (Status::ErrorVersionMismatch, -1),
        (Status::ErrorAllocationFailed, -2),
        (Status::ErrorInvokeFailed, -3),
        (Status::ErrorNotInitialized, -4),
    ];
    for (status, code) in statuses {
        assert_eq!(status.code(), code);
        assert_eq!(Status::from_code(code), Some(status));
    }
    assert_eq!(Status::from_code(1), None);
    assert_eq!(Status::from_code(-5), None);
    assert_eq!(Status::from_code(i32::MIN), None);
}
