use wake_word_detector::detectable_words::DetectableWord;
use std::cell::Cell;

use wake_word_detector::output::controller::{
    DetectionOutcome, OutputClock, OutputController, OutputFrame, OutputInstructionExecutor,
};
use wake_word_detector::output::display_patterns::{
    BLANK_PATTERN, HAPPY_PATTERN, OFF_PATTERN, ON_PATTERN, SEVEN_PATTERN, SIX_PATTERN, UP_PATTERN,
    WOW_PATTERN, WOW_PULSING_PATTERN,
};
use wake_word_detector::output::instruction::OutputInstruction;
use wake_word_detector::output::led_matrix::{DisplayPattern, LEDMatrix};
use wake_word_detector::output::sequence::{OutputInstructionHandler, OutputSequence};

/// A clock that always reads the same instant.
struct FixedClock(u64);

impl OutputClock for FixedClock {
    fn now(&self) -> u64 {
        self.0
    }
}

/// A clock that moves on by `step` microseconds each time it is read.
struct SteppingClock {
    next: Cell<u64>,
    step: u64,
}

impl OutputClock for SteppingClock {
    fn now(&self) -> u64 {
        let now = self.next.get();
        self.next.set(now + self.step);
        now
    }
}

/// Runs eight scan steps and collects the lit LEDs, row by row.
fn scan_frame(led_matrix: &mut LEDMatrix) -> DisplayPattern {
    let mut frame = [[false; 8]; 8];
    for _ in 0..8 {
        let scan = led_matrix.update();
        for column in 0..8 {
            frame[scan.row_index][column] = !scan.column_levels[column];
        }
    }
    frame
}

/// Runs updates at `now` until the next scan cycle starts, then one whole
/// cycle, and returns the frame the cycle rendered and the status LED levels
/// commanded along the way.
fn controller_frame(controller: &mut OutputController, now: u64) -> (DisplayPattern, Vec<bool>) {
    let mut status = Vec::new();
    let mut frame = [[false; 8]; 8];
    let mut rows_seen = 0;
    let mut started = false;
    while rows_seen < 8 {
        let OutputFrame { status_led, row_scan } = controller.update(&FixedClock(now));
        if let Some(level) = status_led {
            status.push(level);
        }
        if row_scan.row_index == 0 {
            started = true;
        }
        if started {
            for column in 0..8 {
                frame[row_scan.row_index][column] = !row_scan.column_levels[column];
            }
            rows_seen += 1;
        }
    }
    (frame, status)
}

#[test]
fn new_matrix_scans_blank_from_top_row() {
    let mut led_matrix = LEDMatrix::new();
    let scan = led_matrix.update();
    assert_eq!(scan.row_index, 0);
    assert_eq!(scan.column_levels, [true; 8]);
    assert_eq!(scan_frame(&mut led_matrix), BLANK_PATTERN);
}

#[test]
fn rows_cycle_every_eight_steps() {
    let mut led_matrix = LEDMatrix::new();
    for step in 0..20 {
        assert_eq!(led_matrix.update().row_index, step % 8);
    }
}

#[test]
fn displayed_pattern_is_scanned_row_by_row() {
    let mut led_matrix = LEDMatrix::new();
    led_matrix.display(&SIX_PATTERN);
    let scan = led_matrix.update();
    assert_eq!(scan.row_index, 0);
    assert_eq!(scan_frame_from_row_one(&mut led_matrix, scan), SIX_PATTERN);
    led_matrix.clear_display();
    assert_eq!(scan_frame(&mut led_matrix), BLANK_PATTERN);
}

fn scan_frame_from_row_one(
    led_matrix: &mut LEDMatrix,
    first: wake_word_detector::output::led_matrix::RowScan,
) -> DisplayPattern {
    let mut frame = [[false; 8]; 8];
    for column in 0..8 {
        frame[0][column] = !first.column_levels[column];
    }
    for _ in 1..8 {
        let scan = led_matrix.update();
        for column in 0..8 {
            frame[scan.row_index][column] = !scan.column_levels[column];
        }
    }
    frame
}

#[test]
fn display_mid_cycle_waits_for_next_cycle() {
    let mut led_matrix = LEDMatrix::new();
    led_matrix.display(&UP_PATTERN);
    for _ in 0..3 {
        led_matrix.update();
    }
    led_matrix.display(&SIX_PATTERN);
    for row in 3..8 {
        let scan = led_matrix.update();
        assert_eq!(scan.row_index, row);
        for column in 0..8 {
            assert_eq!(!scan.column_levels[column], UP_PATTERN[row][column]);
        }
    }
    assert_eq!(scan_frame(&mut led_matrix), SIX_PATTERN);
}

#[test]
fn executor_waits_until_past_deadline() {
    let clock = FixedClock(1_000);
    let mut executor = OutputInstructionExecutor::new(LEDMatrix::new(), &clock);
    assert!(!executor.handle(OutputInstruction::Wait(1_000)));
    assert!(!executor.handle(OutputInstruction::Wait(1_001)));
    assert!(executor.handle(OutputInstruction::Wait(999)));
    // The timer may wrap: an instant just before the wrap is in the past.
    let wrapped = FixedClock(5);
    let mut executor = OutputInstructionExecutor::new(LEDMatrix::new(), &wrapped);
    assert!(executor.handle(OutputInstruction::Wait(u64::MAX - 5)));
    assert!(!executor.handle(OutputInstruction::Wait(6)));
    assert!(executor.handle(OutputInstruction::TurnOffStatusLED));
    assert!(executor.handle(OutputInstruction::TurnOnStatusLED));
    assert_eq!(executor.status_led, Some(true));
    assert!(executor.handle(OutputInstruction::DisplayPattern(&HAPPY_PATTERN)));
    assert_eq!(scan_frame(&mut executor.led_matrix), HAPPY_PATTERN);
    assert!(executor.handle(OutputInstruction::ClearDisplay));
    assert_eq!(scan_frame(&mut executor.led_matrix), BLANK_PATTERN);
}

#[test]
fn sequence_runs_in_order_and_holds_at_waits() {
    let mut sequence = OutputSequence::new(DetectableWord::Up, None);
    sequence.enqueue_instruction(OutputInstruction::TurnOnStatusLED);
    sequence.enqueue_instruction(OutputInstruction::DisplayPattern(&UP_PATTERN));
    sequence.enqueue_instruction(OutputInstruction::Wait(100));
    sequence.enqueue_instruction(OutputInstruction::TurnOffStatusLED);
    sequence.enqueue_final_cleanup_instruction(OutputInstruction::ClearDisplay);
    assert_eq!(sequence.detected_word(), DetectableWord::Up);

    let early = FixedClock(50);
    let mut executor = OutputInstructionExecutor::new(LEDMatrix::new(), &early);
    assert!(!sequence.process(&mut executor));
    assert_eq!(executor.status_led, Some(true));
    assert_eq!(scan_frame(&mut executor.led_matrix), UP_PATTERN);

    let at_deadline = FixedClock(100);
    let mut executor = OutputInstructionExecutor::new(executor.led_matrix, &at_deadline);
    assert!(!sequence.process(&mut executor));
    assert_eq!(executor.status_led, None);

    let late = FixedClock(101);
    let mut executor = OutputInstructionExecutor::new(executor.led_matrix, &late);
    assert!(sequence.process(&mut executor));
    assert_eq!(executor.status_led, Some(false));
    assert_eq!(scan_frame(&mut executor.led_matrix), BLANK_PATTERN);

    // Nothing is left: processing again changes nothing and reports done.
    let mut executor = OutputInstructionExecutor::new(executor.led_matrix, &late);
    assert!(sequence.process(&mut executor));
    assert_eq!(executor.status_led, None);
}

#[test]
fn each_wait_reads_the_clock_afresh() {
    let mut sequence = OutputSequence::new(DetectableWord::Up, None);
    sequence.enqueue_instruction(OutputInstruction::Wait(100));
    sequence.enqueue_instruction(OutputInstruction::TurnOnStatusLED);
    sequence.enqueue_instruction(OutputInstruction::Wait(101));
    sequence.enqueue_instruction(OutputInstruction::TurnOffStatusLED);
    // Read once, 101 would hold the second wait; read again, the clock has
    // moved past it.
    let clock = SteppingClock { next: Cell::new(101), step: 1 };
    let mut executor = OutputInstructionExecutor::new(LEDMatrix::new(), &clock);
    assert!(sequence.process(&mut executor));
    assert_eq!(executor.status_led, Some(false));
    assert_eq!(clock.next.get(), 103);
}

#[test]
fn new_sequence_takes_over_pending_cleanup() {
    let mut previous = OutputSequence::new(DetectableWord::Six, None);
    previous.enqueue_instruction(OutputInstruction::Wait(1_000));
    previous.enqueue_final_cleanup_instruction(OutputInstruction::TurnOffStatusLED);
    let mut next = OutputSequence::new(DetectableWord::Up, Some(previous));
    assert_eq!(next.detected_word(), DetectableWord::Up);
    let clock = FixedClock(0);
    let mut executor = OutputInstructionExecutor::new(LEDMatrix::new(), &clock);
    assert!(next.process(&mut executor));
    assert_eq!(executor.status_led, Some(false));
}

#[test]
fn sequence_accepts_full_capacity() {
    let mut sequence = OutputSequence::new(DetectableWord::Up, None);
    for _ in 0..20 {
        sequence.enqueue_instruction(OutputInstruction::TurnOnStatusLED);
    }
    for _ in 0..6 {
        sequence.enqueue_final_cleanup_instruction(OutputInstruction::TurnOffStatusLED);
    }
    let clock = FixedClock(0);
    let mut executor = OutputInstructionExecutor::new(LEDMatrix::new(), &clock);
    assert!(sequence.process(&mut executor));
    assert_eq!(executor.status_led, Some(false));
}

#[test]
fn update_reads_the_clock_at_each_wait() {
    let mut controller = fresh_controller(0);
    let t0 = 10_000_000;
    assert_eq!(
        controller.handle_detected_word(DetectableWord::Wow, 255, t0),
        DetectionOutcome::Accepted
    );
    // The first wait reads t0 + 999 999 and passes; the second reads
    // t0 + 1 000 001 and passes too, so the resting heart is back; the third
    // reads t0 + 1 000 003 and holds. Read once, the pulse would show.
    let clock = SteppingClock { next: Cell::new(t0 + 999_999), step: 2 };
    let mut frame = [[false; 8]; 8];
    let first = controller.update(&clock);
    assert_eq!(first.row_scan.row_index, 0);
    for column in 0..8 {
        frame[0][column] = !first.row_scan.column_levels[column];
    }
    for _ in 1..8 {
        let scan = controller.update(&FixedClock(t0 + 1_000_004)).row_scan;
        for column in 0..8 {
            frame[scan.row_index][column] = !scan.column_levels[column];
        }
    }
    assert_eq!(frame, WOW_PATTERN);
    assert_eq!(clock.next.get(), t0 + 1_000_005);
}

fn fresh_controller(now: u64) -> OutputController {
    OutputController::new(LEDMatrix::new(), now)
}

#[test]
fn controller_starts_on_and_blank() {
    let mut controller = fresh_controller(0);
    assert!(controller.is_on());
    let (frame, status) = controller_frame(&mut controller, 10);
    assert_eq!(frame, BLANK_PATTERN);
    assert!(status.is_empty());
}

#[test]
fn confident_word_is_shown_for_two_seconds_then_cleared() {
    let mut controller = fresh_controller(0);
    let start = 1_000_000;
    assert_eq!(
        controller.handle_detected_word(DetectableWord::Up, 180, start),
        DetectionOutcome::Accepted
    );
    assert_eq!(controller_frame(&mut controller, start + 1).0, UP_PATTERN);
    assert_eq!(controller_frame(&mut controller, start + 2_000_000).0, UP_PATTERN);
    assert_eq!(controller_frame(&mut controller, start + 2_000_001).0, BLANK_PATTERN);
}

#[test]
fn low_confidence_and_non_words_are_rejected() {
    let mut controller = fresh_controller(0);
    assert_eq!(
        controller.handle_detected_word(DetectableWord::Up, 179, 10),
        DetectionOutcome::Rejected
    );
    assert_eq!(
        controller.handle_detected_word(DetectableWord::Unknown, 255, 20),
        DetectionOutcome::Rejected
    );
    assert_eq!(
        controller.handle_detected_word(DetectableWord::Silence, 255, 30),
        DetectionOutcome::Rejected
    );
    assert_eq!(controller_frame(&mut controller, 40).0, BLANK_PATTERN);
}

#[test]
fn off_then_only_on_is_heard() {
    let mut controller = fresh_controller(0);
    assert_eq!(
        controller.handle_detected_word(DetectableWord::Off, 200, 100),
        DetectionOutcome::Accepted
    );
    assert!(!controller.is_on());
    let (frame, status) = controller_frame(&mut controller, 200);
    assert_eq!(frame, OFF_PATTERN);
    assert_eq!(status, vec![false]);

    assert_eq!(
        controller.handle_detected_word(DetectableWord::Up, 255, 300),
        DetectionOutcome::Ignored
    );
    assert_eq!(
        controller.handle_detected_word(DetectableWord::Off, 255, 400),
        DetectionOutcome::Ignored
    );
    assert!(!controller.is_on());

    assert_eq!(
        controller.handle_detected_word(DetectableWord::On, 200, 500),
        DetectionOutcome::Accepted
    );
    assert!(controller.is_on());
    let (frame, status) = controller_frame(&mut controller, 600);
    assert_eq!(frame, ON_PATTERN);
    assert_eq!(status, vec![true]);
}

#[test]
fn on_when_already_on_commands_nothing() {
    let mut controller = fresh_controller(0);
    assert_eq!(
        controller.handle_detected_word(DetectableWord::On, 200, 100),
        DetectionOutcome::Accepted
    );
    let (frame, status) = controller_frame(&mut controller, 200);
    assert_eq!(frame, ON_PATTERN);
    assert!(status.is_empty());
}

#[test]
fn repeated_word_keeps_its_sequence() {
    let mut controller = fresh_controller(0);
    assert_eq!(
        controller.handle_detected_word(DetectableWord::Up, 200, 1_000),
        DetectionOutcome::Accepted
    );
    assert_eq!(
        controller.handle_detected_word(DetectableWord::Up, 200, 1_500_000),
        DetectionOutcome::Repeated
    );
    // The hold still ends two seconds after the first detection.
    assert_eq!(controller_frame(&mut controller, 2_001_001).0, BLANK_PATTERN);
}

#[test]
fn six_then_seven_celebrates() {
    let mut controller = fresh_controller(0);
    let t0 = 10_000_000;
    assert_eq!(
        controller.handle_detected_word(DetectableWord::Six, 180, t0),
        DetectionOutcome::Accepted
    );
    assert_eq!(controller_frame(&mut controller, t0 + 1).0, SIX_PATTERN);
    let t1 = t0 + 1_500_000;
    // After "six", 0.45 is enough.
    assert_eq!(
        controller.handle_detected_word(DetectableWord::Seven, 116, t1),
        DetectionOutcome::Accepted
    );
    assert_eq!(controller_frame(&mut controller, t1).0, SEVEN_PATTERN);
    assert_eq!(controller_frame(&mut controller, t1 + 500_000).0, SEVEN_PATTERN);
    assert_eq!(controller_frame(&mut controller, t1 + 500_001).0, HAPPY_PATTERN);
    assert_eq!(controller_frame(&mut controller, t1 + 1_000_001).0, BLANK_PATTERN);
    assert_eq!(controller_frame(&mut controller, t1 + 1_500_001).0, HAPPY_PATTERN);
    assert_eq!(controller_frame(&mut controller, t1 + 2_000_001).0, BLANK_PATTERN);
    assert_eq!(controller_frame(&mut controller, t1 + 2_500_001).0, HAPPY_PATTERN);
    assert_eq!(controller_frame(&mut controller, t1 + 3_000_000).0, HAPPY_PATTERN);
    assert_eq!(controller_frame(&mut controller, t1 + 3_000_001).0, BLANK_PATTERN);
}

#[test]
fn threshold_after_six_is_lowered_only_just() {
    let mut controller = fresh_controller(0);
    assert_eq!(
        controller.handle_detected_word(DetectableWord::Six, 200, 1_000),
        DetectionOutcome::Accepted
    );
    assert_eq!(
        controller.handle_detected_word(DetectableWord::Up, 115, 2_000),
        DetectionOutcome::Rejected
    );
    assert_eq!(
        controller.handle_detected_word(DetectableWord::Up, 116, 3_000),
        DetectionOutcome::Accepted
    );
}

#[test]
fn six_is_forgotten_after_two_seconds() {
    let mut controller = fresh_controller(0);
    let t0 = 1_000;
    assert_eq!(
        controller.handle_detected_word(DetectableWord::Six, 200, t0),
        DetectionOutcome::Accepted
    );
    // 2000.999 ms later: still 2000 whole milliseconds, still remembered.
    assert_eq!(
        controller.handle_detected_word(DetectableWord::Up, 116, t0 + 2_000_999),
        DetectionOutcome::Accepted
    );
    assert_eq!(
        controller.handle_detected_word(DetectableWord::Six, 200, t0 + 3_000_000),
        DetectionOutcome::Accepted
    );
    // 2001 ms later the "six" is forgotten.
    assert_eq!(
        controller.handle_detected_word(DetectableWord::Seven, 179, t0 + 5_001_000),
        DetectionOutcome::Rejected
    );
    assert_eq!(
        controller.handle_detected_word(DetectableWord::Seven, 180, t0 + 5_002_000),
        DetectionOutcome::Accepted
    );
    assert_eq!(controller_frame(&mut controller, t0 + 5_002_001).0, SEVEN_PATTERN);
    // No celebration: the plain two second hold.
    assert_eq!(controller_frame(&mut controller, t0 + 7_002_000).0, SEVEN_PATTERN);
    assert_eq!(controller_frame(&mut controller, t0 + 7_002_001).0, BLANK_PATTERN);
}

#[test]
fn wow_pulses_three_times() {
    let mut controller = fresh_controller(0);
    let t0 = 50;
    assert_eq!(
        controller.handle_detected_word(DetectableWord::Wow, 255, t0),
        DetectionOutcome::Accepted
    );
    assert_eq!(controller_frame(&mut controller, t0 + 1).0, WOW_PATTERN);
    for pulse in 0..3u64 {
        let base = t0 + pulse * 1_000_000;
        assert_eq!(controller_frame(&mut controller, base + 500_001).0, WOW_PULSING_PATTERN);
        assert_eq!(controller_frame(&mut controller, base + 1_000_001).0, WOW_PATTERN);
    }
    assert_eq!(controller_frame(&mut controller, t0 + 3_500_000).0, WOW_PATTERN);
    assert_eq!(controller_frame(&mut controller, t0 + 3_500_001).0, BLANK_PATTERN);
}

#[test]
fn interrupted_sequence_is_cleaned_up_first() {
    let mut controller = fresh_controller(0);
    assert_eq!(
        controller.handle_detected_word(DetectableWord::Up, 200, 1_000),
        DetectionOutcome::Accepted
    );
    assert_eq!(controller_frame(&mut controller, 2_000).0, UP_PATTERN);
    assert_eq!(
        controller.handle_detected_word(DetectableWord::Six, 200, 3_000),
        DetectionOutcome::Accepted
    );
    assert_eq!(controller_frame(&mut controller, 4_000).0, SIX_PATTERN);
}

#[test]
fn time_order_is_checked_only_when_heard() {
    let controller = fresh_controller(1_000);
    assert!(controller.is_in_time_order(DetectableWord::Up, 1_000));
    assert!(controller.is_in_time_order(DetectableWord::Up, 2_000));
    assert!(!controller.is_in_time_order(DetectableWord::Up, 999));

    // Across a wrap of the timer the order still holds.
    let mut controller = fresh_controller(u64::MAX - 10);
    assert!(controller.is_in_time_order(DetectableWord::Off, u64::MAX - 5));
    assert_eq!(
        controller.handle_detected_word(DetectableWord::Off, 200, u64::MAX - 5),
        DetectionOutcome::Accepted
    );
    assert!(controller.is_in_time_order(DetectableWord::On, 5));
    assert!(!controller.is_in_time_order(DetectableWord::On, u64::MAX - 6));
    // When turned off, other words are not looked at.
    assert!(controller.is_in_time_order(DetectableWord::Up, 0));
    // A detection across the wrap is remembered as recent.
    assert_eq!(
        controller.handle_detected_word(DetectableWord::On, 200, 100),
        DetectionOutcome::Accepted
    );
    assert!(controller.is_on());
}
