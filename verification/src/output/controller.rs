use vstd::prelude::*;

use crate::detectable_words::DetectableWord;

use super::display_patterns::{
    word_pattern,
    BLANK_PATTERN,
    HAPPY_PATTERN,
    WOW_PATTERN,
    WOW_PULSING_PATTERN,
};
use super::instruction::OutputInstruction;
use super::led_matrix::{
    DisplayPattern,
    LEDMatrix,
    LEDMatrixDisplayable,
    LEDMatrixView,
    RowScan,
};
use super::sequence::{
    processes,
    runs,
    OutputInstructionHandler,
    OutputSequence,
    OutputSequenceView,
};
use super::timing::{
    instant_after,
    instant_before,
    instant_is_after,
    instant_is_before,
    instant_plus_micros,
    lemma_ticks_after_micros_accumulates,
    lemma_ticks_after_no_micros,
    millis_between,
    ticks_after_micros,
    ticks_wrapping_sub,
};

verus! {

/// A detection is remembered, for the "six seven" celebration and the lowered
/// threshold after "six", for this many milliseconds.
pub const DETECTION_MEMORY_MILLIS: u64 = 2000;

/// Length of one step of an animation, in microseconds.
pub const ANIMATION_STEP_MICROS: u64 = 500_000;

/// How long a detected word stays on the display when it has no animation,
/// in microseconds.
pub const PATTERN_HOLD_MICROS: u64 = 2_000_000;

/// Confidences are counted in steps of 1/256: the model's output is an int8
/// with scale 1/256 and zero point -128, so these steps are exact.
pub const CONFIDENCE_SCALE: u16 = 256;

/// The least confidence, in 1/256 steps, that reaches 0.7.
pub const CONFIDENCE_THRESHOLD: u16 = 180;

/// The least confidence, in 1/256 steps, that reaches 0.45: the threshold
/// for the word that follows a recent "six".
pub const CONFIDENCE_THRESHOLD_AFTER_SIX: u16 = 116;

/// The thresholds are the 1/256 steps at which the fractions 0.7 and 0.45 are reached.
pub proof fn lemma_confidence_thresholds()
    ensures
        CONFIDENCE_THRESHOLD * 100 >= 70 * CONFIDENCE_SCALE,
        (CONFIDENCE_THRESHOLD - 1) * 100 < 70 * CONFIDENCE_SCALE,
        CONFIDENCE_THRESHOLD_AFTER_SIX * 100 >= 45 * CONFIDENCE_SCALE,
        (CONFIDENCE_THRESHOLD_AFTER_SIX - 1) * 100 < 45 * CONFIDENCE_SCALE,
{
}

// ---------------------------------------------------------------------------
// Carrying out instructions
// ---------------------------------------------------------------------------

/// The timer that waits are judged against. Every call reads it afresh.
pub trait OutputClock {
    fn now(&self) -> u64;
}

/// What carrying out instructions changes: the LED matrix buffer, and the
/// last level commanded for the status LED, if any.
pub struct OutputEffects {
    pub led_matrix: LEDMatrixView,
    pub status_led: Option<bool>,
}

impl OutputEffects {
    /// The effects after carrying out `instruction`; a wait changes nothing.
    pub open spec fn applying(self, instruction: OutputInstruction) -> OutputEffects {
        match instruction {
            OutputInstruction::DisplayPattern(display_pattern) => OutputEffects {
                led_matrix: self.led_matrix.displaying(*display_pattern),
                ..self
            },
            OutputInstruction::TurnOnStatusLED => OutputEffects { status_led: Some(true), ..self },
            OutputInstruction::TurnOffStatusLED => OutputEffects { status_led: Some(false), ..self },
            OutputInstruction::Wait(_) => self,
            OutputInstruction::ClearDisplay => OutputEffects {
                led_matrix: self.led_matrix.displaying(BLANK_PATTERN),
                ..self
            },
        }
    }
}

/// Carries out output instructions: patterns go to the LED matrix buffer,
/// status LED commands are recorded, the last one winning, for the caller to
/// drive the pin, and each wait reads the clock and passes once the clock is
/// past the wait's instant.
pub struct OutputInstructionExecutor<'a, C: OutputClock> {
    pub led_matrix: LEDMatrix,
    pub status_led: Option<bool>,
    pub clock: &'a C,
    /// The clock readings taken so far, one per wait, in order.
    pub clock_readings: Ghost<Seq<u64>>,
}

pub struct OutputInstructionExecutorView {
    pub effects: OutputEffects,
    pub clock_readings: Seq<u64>,
}

impl<'a, C: OutputClock> View for OutputInstructionExecutor<'a, C> {
    type V = OutputInstructionExecutorView;

    open spec fn view(&self) -> OutputInstructionExecutorView {
        OutputInstructionExecutorView {
            effects: OutputEffects { led_matrix: self.led_matrix@, status_led: self.status_led },
            clock_readings: self.clock_readings@,
        }
    }
}

impl<'a, C: OutputClock> OutputInstructionHandler for OutputInstructionExecutor<'a, C> {
    /// A wait reads the clock once, changes nothing else, and passes exactly
    /// when the reading is past its instant; everything else is carried out.
    open spec fn handles(
        state: OutputInstructionExecutorView,
        instruction: OutputInstruction,
        accepted: bool,
        next: OutputInstructionExecutorView,
    ) -> bool {
        match instruction {
            OutputInstruction::Wait(deadline) => {
                &&& next.effects == state.effects
                &&& next.clock_readings.len() == state.clock_readings.len() + 1
                &&& next.clock_readings.drop_last() == state.clock_readings
                &&& accepted == instant_is_after(next.clock_readings.last(), deadline)
            },
            _ => {
                &&& accepted
                &&& next == (OutputInstructionExecutorView {
                    effects: state.effects.applying(instruction),
                    clock_readings: state.clock_readings,
                })
            },
        }
    }

    fn handle(&mut self, instruction: OutputInstruction) -> (did_process_instruction: bool) {
        let did_process_instruction: bool;
        match instruction {
            OutputInstruction::DisplayPattern(display_pattern) => {
                self.led_matrix.display(display_pattern);
                did_process_instruction = true;
            },
            OutputInstruction::TurnOnStatusLED => {
                self.status_led = Some(true);
                did_process_instruction = true;
            },
            OutputInstruction::TurnOffStatusLED => {
                self.status_led = Some(false);
                did_process_instruction = true;
            },
            OutputInstruction::Wait(delay_expiration_timestamp) => {
                let current_timestamp = self.clock.now();
                self.clock_readings = Ghost(self.clock_readings@.push(current_timestamp));
                did_process_instruction = instant_after(current_timestamp, delay_expiration_timestamp);
                assert(self.clock_readings@.drop_last() =~= old(self).clock_readings@);
            },
            OutputInstruction::ClearDisplay => {
                self.led_matrix.clear_display();
                did_process_instruction = true;
            },
        }
        did_process_instruction
    }
}

impl<'a, C: OutputClock> OutputInstructionExecutor<'a, C> {
    /// An executor for `led_matrix` that reads `clock`, with no status LED
    /// command and no clock reading yet.
    pub fn new(led_matrix: LEDMatrix, clock: &'a C) -> (executor: Self)
        ensures
            executor.led_matrix == led_matrix,
            executor@ == (OutputInstructionExecutorView {
                effects: OutputEffects { led_matrix: led_matrix@, status_led: None },
                clock_readings: Seq::empty(),
            }),
    {
        OutputInstructionExecutor { led_matrix, status_led: None, clock, clock_readings: Ghost(Seq::empty()) }
    }
}

/// Carrying out `instructions` in order on `effects`, the k-th wait met being
/// judged against `readings[k]`, up to the first wait whose reading is not
/// past its instant or that finds no reading left: the resulting effects,
/// how many instructions were carried out, and how many readings were used.
pub open spec fn replay(
    effects: OutputEffects,
    instructions: Seq<OutputInstruction>,
    readings: Seq<u64>,
) -> (OutputEffects, nat, nat)
    decreases instructions.len(),
{
    if instructions.len() == 0 {
        (effects, 0, 0)
    } else {
        match instructions[0] {
            OutputInstruction::Wait(deadline) => if readings.len() == 0 {
                (effects, 0, 0)
            } else if instant_is_after(readings[0], deadline) {
                let rest = replay(effects, instructions.drop_first(), readings.drop_first());
                (rest.0, rest.1 + 1, rest.2 + 1)
            } else {
                (effects, 0, 1)
            },
            _ => {
                let rest = replay(effects.applying(instructions[0]), instructions.drop_first(), readings);
                (rest.0, rest.1 + 1, rest.2)
            },
        }
    }
}

/// What an executor can do over a run is what `replay` gives with the clock
/// readings it took, whatever readings come after them.
pub proof fn lemma_executor_runs_replay<'a, C: OutputClock>(
    state: OutputInstructionExecutorView,
    instructions: Seq<OutputInstruction>,
    end: OutputInstructionExecutorView,
    accepted: nat,
    later: Seq<u64>,
)
    requires
        runs::<OutputInstructionExecutor<'a, C>>(state, instructions, end, accepted),
    ensures
        state.clock_readings.len() <= end.clock_readings.len(),
        end.clock_readings.take(state.clock_readings.len() as int) == state.clock_readings,
        replay(
            state.effects,
            instructions,
            end.clock_readings.skip(state.clock_readings.len() as int) + later,
        ) == (end.effects, accepted, (end.clock_readings.len() - state.clock_readings.len()) as nat),
    decreases instructions.len(),
{
    let n = state.clock_readings.len() as int;
    if instructions.len() == 0 {
        assert(end.clock_readings.take(n) =~= state.clock_readings);
    } else {
        let (answer, next) = choose|answer: bool, next: OutputInstructionExecutorView|
            #[trigger] OutputInstructionExecutor::<'a, C>::handles(state, instructions[0], answer, next)
                && if answer {
                accepted > 0 && runs::<OutputInstructionExecutor<'a, C>>(
                    next,
                    instructions.drop_first(),
                    end,
                    (accepted - 1) as nat,
                )
            } else {
                end == next && accepted == 0
            };
        match instructions[0] {
            OutputInstruction::Wait(deadline) => {
                if answer {
                    lemma_executor_runs_replay::<C>(
                        next,
                        instructions.drop_first(),
                        end,
                        (accepted - 1) as nat,
                        later,
                    );
                    let readings = end.clock_readings.skip(n) + later;
                    assert(next.clock_readings =~= state.clock_readings.push(next.clock_readings.last()));
                    assert(end.clock_readings.take(n + 1) == next.clock_readings);
                    assert(readings[0] == next.clock_readings.last());
                    assert(readings.drop_first() =~= end.clock_readings.skip(n + 1) + later);
                    assert(end.clock_readings.take(n) =~= state.clock_readings);
                } else {
                    let readings = end.clock_readings.skip(n) + later;
                    assert(end.clock_readings =~= state.clock_readings.push(end.clock_readings.last()));
                    assert(readings[0] == end.clock_readings.last());
                    assert(end.clock_readings.take(n) =~= state.clock_readings);
                }
            },
            _ => {
                lemma_executor_runs_replay::<C>(
                    next,
                    instructions.drop_first(),
                    end,
                    (accepted - 1) as nat,
                    later,
                );
            },
        }
    }
}

/// Carrying out instructions never moves the matrix's scan position.
pub proof fn lemma_replay_keeps_scan_row(
    effects: OutputEffects,
    instructions: Seq<OutputInstruction>,
    readings: Seq<u64>,
)
    ensures
        replay(effects, instructions, readings).0.led_matrix.current_row_index
            == effects.led_matrix.current_row_index,
        replay(effects, instructions, readings).1 <= instructions.len(),
        replay(effects, instructions, readings).2 <= readings.len(),
    decreases instructions.len(),
{
    if instructions.len() > 0 {
        match instructions[0] {
            OutputInstruction::Wait(_) => {
                if readings.len() > 0 {
                    lemma_replay_keeps_scan_row(effects, instructions.drop_first(), readings.drop_first());
                }
            },
            _ => {
                lemma_replay_keeps_scan_row(
                    effects.applying(instructions[0]),
                    instructions.drop_first(),
                    readings,
                );
            },
        }
    }
}

// ---------------------------------------------------------------------------
// Animations
// ---------------------------------------------------------------------------

/// The instant `steps` animation steps after `now`.
pub open spec fn animation_instant(now: u64, steps: nat) -> u64 {
    ticks_after_micros(now, steps * (ANIMATION_STEP_MICROS as nat))
}

/// Round `round` (from 0) of an animation: wait until the end of step
/// `2 * round + 1`, show `pattern`, and hold it until the end of the next step.
pub open spec fn flash(now: u64, round: nat, pattern: &'static DisplayPattern) -> Seq<OutputInstruction> {
    seq![
        OutputInstruction::Wait(animation_instant(now, 2 * round + 1)),
        OutputInstruction::DisplayPattern(pattern),
        OutputInstruction::Wait(animation_instant(now, 2 * round + 2)),
    ]
}

/// The first `rounds` rounds of the "six seven" celebration: the happy face
/// flashes, the display clearing between flashes.
pub open spec fn celebration_rounds(now: u64, rounds: nat) -> Seq<OutputInstruction>
    decreases rounds,
{
    if rounds == 0 {
        Seq::empty()
    } else {
        celebration_rounds(now, (rounds - 1) as nat) + flash(now, (rounds - 1) as nat, &HAPPY_PATTERN)
            + if rounds < 3 {
            seq![OutputInstruction::ClearDisplay]
        } else {
            Seq::empty()
        }
    }
}

/// The first `rounds` rounds of the "wow" animation: the heart pulses, going
/// back to its resting pattern after each pulse.
pub open spec fn pulse_rounds(now: u64, rounds: nat) -> Seq<OutputInstruction>
    decreases rounds,
{
    if rounds == 0 {
        Seq::empty()
    } else {
        pulse_rounds(now, (rounds - 1) as nat) + flash(now, (rounds - 1) as nat, &WOW_PULSING_PATTERN)
            + seq![OutputInstruction::DisplayPattern(&WOW_PATTERN)]
    }
}

/// What follows the pattern of a detected word: three flashes of the happy
/// face when "seven" comes right after "six"; three pulses of the heart then a
/// final step for "wow"; otherwise the pattern is held for two seconds.
pub open spec fn detection_animation(
    previous_word: DetectableWord,
    detected_word: DetectableWord,
    now: u64,
) -> Seq<OutputInstruction> {
    if previous_word is Six && detected_word is Seven {
        celebration_rounds(now, 3)
    } else if detected_word is Wow {
        pulse_rounds(now, 3) + seq![OutputInstruction::Wait(animation_instant(now, 7))]
    } else {
        seq![OutputInstruction::Wait(ticks_after_micros(now, PATTERN_HOLD_MICROS as nat))]
    }
}

/// The confidence needed, in 1/256 steps, given the word remembered from the
/// previous detection.
pub open spec fn confidence_threshold(remembered_word: DetectableWord) -> u16 {
    if remembered_word is Six {
        CONFIDENCE_THRESHOLD_AFTER_SIX
    } else {
        CONFIDENCE_THRESHOLD
    }
}

// ---------------------------------------------------------------------------
// The controller
// ---------------------------------------------------------------------------

/// How a detection was taken.
#[derive(Clone, Copy, Debug, PartialEq, Eq, Structural)]
pub enum DetectionOutcome {
    /// The detector is turned off and the word is not "on".
    Ignored,
    /// Not one of the target words, or not confident enough.
    Rejected,
    /// A new output sequence was started for the word.
    Accepted,
    /// The word of the output sequence in progress came again; that sequence goes on.
    Repeated,
}

/// What one interrupt drives: the status LED level, if an instruction set
/// it, and the LED matrix row to scan.
#[derive(Clone, Copy, Debug, PartialEq, Eq)]
pub struct OutputFrame {
    pub status_led: Option<bool>,
    pub row_scan: RowScan,
}

/// The output logic of the wake word detector: which detections count, the
/// output sequences they start, and the LED matrix they drive.
pub struct OutputController {
    pub led_matrix: LEDMatrix,
    /// When the detector is turned off, it only responds to the word "on".
    is_on: bool,
    /// The last detected word.
    last_detected_word: DetectableWord,
    /// When the last detected word was recognized (microsecond ticks).
    last_detected_timestamp: u64,
    /// The current output sequence.
    current_output_sequence: Option<OutputSequence>,
}

pub struct OutputControllerView {
    pub led_matrix: LEDMatrixView,
    pub is_on: bool,
    pub last_detected_word: DetectableWord,
    pub last_detected_timestamp: u64,
    pub current_output_sequence: Option<OutputSequenceView>,
}

impl View for OutputController {
    type V = OutputControllerView;

    closed spec fn view(&self) -> OutputControllerView {
        OutputControllerView {
            led_matrix: self.led_matrix@,
            is_on: self.is_on,
            last_detected_word: self.last_detected_word,
            last_detected_timestamp: self.last_detected_timestamp,
            current_output_sequence: match self.current_output_sequence {
                Some(sequence) => Some(sequence@),
                None => None,
            },
        }
    }
}

impl OutputControllerView {
    /// The matrix scans a real row, and an output sequence in progress has
    /// as its only cleanup instruction the clearing of the display that every
    /// sequence gets.
    pub open spec fn wf(self) -> bool {
        &&& self.led_matrix.wf()
        &&& self.current_output_sequence matches Some(sequence) ==> {
            &&& sequence.wf()
            &&& sequence.final_cleanup_instructions == seq![OutputInstruction::ClearDisplay]
        }
    }

    /// Whether the detector reacts to `word` at all.
    pub open spec fn responds_to(self, word: DetectableWord) -> bool {
        self.is_on || word is On
    }

    /// The previous detection, forgotten once more than two seconds have passed.
    pub open spec fn remembered_word(self, now: u64) -> DetectableWord {
        if ticks_wrapping_sub(now, self.last_detected_timestamp) / 1000 > DETECTION_MEMORY_MILLIS {
            DetectableWord::Unknown
        } else {
            self.last_detected_word
        }
    }

    /// Whether `word` with `confidence` counts as a detection at `now`.
    pub open spec fn is_confident_detection(self, word: DetectableWord, confidence: u16, now: u64) -> bool {
        word.spec_is_valid() && confidence >= confidence_threshold(self.remembered_word(now))
    }

    /// Whether `word` is the word of the output sequence in progress.
    pub open spec fn is_repeated_detection(self, word: DetectableWord) -> bool {
        self.current_output_sequence matches Some(sequence) && sequence.detected_word == word
    }

    /// The cleanup instructions that the sequence in progress has not carried out.
    pub open spec fn carried_over_instructions(self) -> Seq<OutputInstruction> {
        match self.current_output_sequence {
            Some(sequence) => sequence.pending_final_cleanup_instructions(),
            None => Seq::empty(),
        }
    }

    /// "on" turns a turned-off detector on and "off" turns a turned-on one off.
    pub open spec fn is_on_after(self, word: DetectableWord) -> bool {
        if !self.is_on && word is On {
            true
        } else if self.is_on && word is Off {
            false
        } else {
            self.is_on
        }
    }

    /// The status LED instruction that goes with turning on or off, if any.
    pub open spec fn power_instructions(self, word: DetectableWord) -> Seq<OutputInstruction> {
        if !self.is_on && word is On {
            seq![OutputInstruction::TurnOnStatusLED]
        } else if self.is_on && word is Off {
            seq![OutputInstruction::TurnOffStatusLED]
        } else {
            Seq::empty()
        }
    }

    /// The output sequence that a new detection of `word` at `now` starts.
    pub open spec fn new_output_sequence(self, word: DetectableWord, now: u64) -> OutputSequenceView {
        OutputSequenceView {
            detected_word: word,
            instructions: self.carried_over_instructions() + self.power_instructions(word) + seq![
                OutputInstruction::DisplayPattern(word_pattern(word)),
            ] + detection_animation(self.remembered_word(now), word, now),
            instructions_processed: 0,
            final_cleanup_instructions: seq![OutputInstruction::ClearDisplay],
            final_cleanup_instructions_processed: 0,
        }
    }

    pub open spec fn detection_outcome(self, word: DetectableWord, confidence: u16, now: u64) -> DetectionOutcome {
        if !self.responds_to(word) {
            DetectionOutcome::Ignored
        } else if !self.is_confident_detection(word, confidence, now) {
            DetectionOutcome::Rejected
        } else if self.is_repeated_detection(word) {
            DetectionOutcome::Repeated
        } else {
            DetectionOutcome::Accepted
        }
    }

    /// The state after the detector reports `word` with `confidence` at `now`.
    pub open spec fn handling_detected_word(self, word: DetectableWord, confidence: u16, now: u64) -> OutputControllerView {
        match self.detection_outcome(word, confidence, now) {
            DetectionOutcome::Ignored => self,
            DetectionOutcome::Rejected => OutputControllerView {
                last_detected_word: self.remembered_word(now),
                ..self
            },
            DetectionOutcome::Repeated => OutputControllerView {
                last_detected_word: word,
                last_detected_timestamp: now,
                ..self
            },
            DetectionOutcome::Accepted => OutputControllerView {
                is_on: self.is_on_after(word),
                last_detected_word: word,
                last_detected_timestamp: now,
                current_output_sequence: Some(self.new_output_sequence(word, now)),
                ..self
            },
        }
    }

    /// The effects that an update starts from: the matrix as it is, no
    /// status LED command.
    pub open spec fn initial_effects(self) -> OutputEffects {
        OutputEffects { led_matrix: self.led_matrix, status_led: None }
    }

    /// The output sequence left, and the effects, once an update has
    /// processed the sequence in progress, the k-th wait it met being judged
    /// against the clock reading `readings[k]`: the main instructions first,
    /// the cleanup ones only once the main ones are all done, and the
    /// sequence dropped once everything is done.
    pub open spec fn processing_with(self, readings: Seq<u64>) -> (Option<OutputSequenceView>, OutputEffects) {
        match self.current_output_sequence {
            None => (None, self.initial_effects()),
            Some(sequence) => {
                let main = replay(self.initial_effects(), sequence.pending_instructions(), readings);
                if main.1 == sequence.pending_instructions().len() {
                    let cleanup = replay(
                        main.0,
                        sequence.pending_final_cleanup_instructions(),
                        readings.skip(main.2 as int),
                    );
                    (
                        if cleanup.1 == sequence.pending_final_cleanup_instructions().len() {
                            None
                        } else {
                            Some(
                                OutputSequenceView {
                                    instructions_processed: sequence.instructions_processed + main.1,
                                    final_cleanup_instructions_processed: sequence.final_cleanup_instructions_processed
                                        + cleanup.1,
                                    ..sequence
                                },
                            )
                        },
                        cleanup.0,
                    )
                } else {
                    (
                        Some(
                            OutputSequenceView {
                                instructions_processed: sequence.instructions_processed + main.1,
                                ..sequence
                            },
                        ),
                        main.0,
                    )
                }
            },
        }
    }

    /// The state after an update whose waits read `readings`.
    pub open spec fn updating(self, readings: Seq<u64>) -> OutputControllerView {
        OutputControllerView {
            led_matrix: self.processing_with(readings).1.led_matrix.after_update(),
            current_output_sequence: self.processing_with(readings).0,
            ..self
        }
    }

    /// `frame` is what an update whose waits read `readings` drives.
    pub open spec fn drives(self, readings: Seq<u64>, frame: OutputFrame) -> bool {
        &&& frame.status_led == self.processing_with(readings).1.status_led
        &&& self.processing_with(readings).1.led_matrix.drives(frame.row_scan)
    }
}

// ---------------------------------------------------------------------------
// Properties of the controller
// ---------------------------------------------------------------------------

/// When turned off, the detector only responds to the word "on": any other
/// word is ignored and changes nothing.
pub proof fn lemma_turned_off_only_hears_on(
    state: OutputControllerView,
    word: DetectableWord,
    confidence: u16,
    now: u64,
)
    requires
        !state.is_on,
        !(word is On),
    ensures
        state.detection_outcome(word, confidence, now) == DetectionOutcome::Ignored,
        state.handling_detected_word(word, confidence, now) == state,
{
}

/// Whether `instruction` commands the status LED.
pub open spec fn is_status_led_instruction(instruction: OutputInstruction) -> bool {
    instruction is TurnOnStatusLED || instruction is TurnOffStatusLED
}

/// Whether none of `instructions` commands the status LED.
pub open spec fn commands_no_status_led(instructions: Seq<OutputInstruction>) -> bool {
    forall|k: int| 0 <= k < instructions.len() ==> !is_status_led_instruction(#[trigger] instructions[k])
}

proof fn lemma_commands_no_status_led_concat(first: Seq<OutputInstruction>, second: Seq<OutputInstruction>)
    requires
        commands_no_status_led(first),
        commands_no_status_led(second),
    ensures
        commands_no_status_led(first + second),
{
    assert forall|k: int| 0 <= k < (first + second).len() implies !is_status_led_instruction(
        #[trigger] (first + second)[k],
    ) by {
        if k < first.len() {
            assert((first + second)[k] == first[k]);
        } else {
            assert((first + second)[k] == second[k - first.len()]);
        }
    }
}

proof fn lemma_rounds_command_no_status_led(now: u64, rounds: nat)
    ensures
        commands_no_status_led(celebration_rounds(now, rounds)),
        commands_no_status_led(pulse_rounds(now, rounds)),
    decreases rounds,
{
    if rounds > 0 {
        let previous = (rounds - 1) as nat;
        lemma_rounds_command_no_status_led(now, previous);
        lemma_commands_no_status_led_concat(
            celebration_rounds(now, previous),
            flash(now, previous, &HAPPY_PATTERN),
        );
        let clear: Seq<OutputInstruction> = if rounds < 3 {
            seq![OutputInstruction::ClearDisplay]
        } else {
            Seq::empty()
        };
        lemma_commands_no_status_led_concat(
            celebration_rounds(now, previous) + flash(now, previous, &HAPPY_PATTERN),
            clear,
        );
        lemma_commands_no_status_led_concat(
            pulse_rounds(now, previous),
            flash(now, previous, &WOW_PULSING_PATTERN),
        );
        lemma_commands_no_status_led_concat(
            pulse_rounds(now, previous) + flash(now, previous, &WOW_PULSING_PATTERN),
            seq![OutputInstruction::DisplayPattern(&WOW_PATTERN)],
        );
    }
}

/// No animation commands the status LED.
pub proof fn lemma_animation_commands_no_status_led(
    previous_word: DetectableWord,
    detected_word: DetectableWord,
    now: u64,
)
    ensures
        commands_no_status_led(detection_animation(previous_word, detected_word, now)),
{
    lemma_rounds_command_no_status_led(now, 3);
    lemma_commands_no_status_led_concat(
        pulse_rounds(now, 3),
        seq![OutputInstruction::Wait(animation_instant(now, 7))],
    );
}

/// After an accepted detection the detector is on unless the word was
/// "off". The new sequence first finishes the previous sequence's cleanup,
/// which only clears the display; then, exactly when the detector was turned
/// on or off, it commands the status LED to the new state; no other
/// instruction of it commands the status LED.
pub proof fn lemma_power_follows_on_and_off(
    state: OutputControllerView,
    word: DetectableWord,
    confidence: u16,
    now: u64,
)
    requires
        state.wf(),
        state.detection_outcome(word, confidence, now) == DetectionOutcome::Accepted,
    ensures
        state.handling_detected_word(word, confidence, now).is_on == !(word is Off),
        state.power_instructions(word) == (if state.handling_detected_word(word, confidence, now).is_on
            == state.is_on {
            Seq::<OutputInstruction>::empty()
        } else if state.handling_detected_word(word, confidence, now).is_on {
            seq![OutputInstruction::TurnOnStatusLED]
        } else {
            seq![OutputInstruction::TurnOffStatusLED]
        }),
        forall|k: int|
            0 <= k < state.carried_over_instructions().len() ==> #[trigger] state.carried_over_instructions()[k]
                == OutputInstruction::ClearDisplay,
        state.new_output_sequence(word, now).instructions.take(
            state.carried_over_instructions().len() as int,
        ) == state.carried_over_instructions(),
        forall|k: int|
            0 <= k < state.new_output_sequence(word, now).instructions.len()
                && is_status_led_instruction(
                #[trigger] state.new_output_sequence(word, now).instructions[k],
            ) ==> k == state.carried_over_instructions().len() && state.handling_detected_word(
                word,
                confidence,
                now,
            ).is_on != state.is_on,
        state.handling_detected_word(word, confidence, now).is_on != state.is_on
            ==> state.new_output_sequence(word, now).instructions[state.carried_over_instructions().len() as int]
            == (if state.handling_detected_word(word, confidence, now).is_on {
            OutputInstruction::TurnOnStatusLED
        } else {
            OutputInstruction::TurnOffStatusLED
        }),
{
    let carried = state.carried_over_instructions();
    let power = state.power_instructions(word);
    let shown = seq![OutputInstruction::DisplayPattern(word_pattern(word))];
    let animation = detection_animation(state.remembered_word(now), word, now);
    let instructions = state.new_output_sequence(word, now).instructions;
    assert forall|k: int| 0 <= k < carried.len() implies #[trigger] carried[k]
        == OutputInstruction::ClearDisplay by {
        let sequence = state.current_output_sequence->Some_0;
        assert(carried[k] == sequence.final_cleanup_instructions[
            k + sequence.final_cleanup_instructions_processed]);
    }
    assert(commands_no_status_led(carried));
    assert(commands_no_status_led(shown));
    lemma_animation_commands_no_status_led(state.remembered_word(now), word, now);
    assert(instructions == carried + power + shown + animation);
    assert(instructions.take(carried.len() as int) =~= carried);
    assert forall|k: int|
        0 <= k < instructions.len() && is_status_led_instruction(#[trigger] instructions[k]) implies k
        == carried.len() && power.len() == 1 by {
        if k < carried.len() {
            assert(instructions[k] == carried[k]);
        } else if k < carried.len() + power.len() {
            assert(instructions[k] == power[k - carried.len()]);
        } else if k < carried.len() + power.len() + 1 {
            assert(instructions[k] == shown[k - carried.len() - power.len()]);
        } else {
            assert(instructions[k] == animation[k - carried.len() - power.len() - 1]);
        }
    }
    if power.len() == 1 {
        assert(instructions[carried.len() as int] == power[0]);
    }
}

/// Hearing again the word whose sequence is in progress keeps that sequence
/// going instead of restarting it; only the memory of the last detection
/// moves on.
pub proof fn lemma_repeated_detection_keeps_sequence(
    state: OutputControllerView,
    word: DetectableWord,
    confidence: u16,
    now: u64,
)
    requires
        state.detection_outcome(word, confidence, now) == DetectionOutcome::Repeated,
    ensures
        state.handling_detected_word(word, confidence, now).current_output_sequence
            == state.current_output_sequence,
        state.handling_detected_word(word, confidence, now).is_on == state.is_on,
        state.handling_detected_word(word, confidence, now).last_detected_word == word,
        state.handling_detected_word(word, confidence, now).last_detected_timestamp == now,
{
}

/// A detection is remembered for two seconds only: later, the previous word
/// neither lowers the threshold nor sets up the "six seven" celebration.
pub proof fn lemma_detection_memory_expires(state: OutputControllerView, word: DetectableWord, now: u64)
    requires
        ticks_wrapping_sub(now, state.last_detected_timestamp) / 1000 > DETECTION_MEMORY_MILLIS,
    ensures
        state.remembered_word(now) == DetectableWord::Unknown,
        confidence_threshold(state.remembered_word(now)) == CONFIDENCE_THRESHOLD,
        detection_animation(state.remembered_word(now), word, now) == (if word is Wow {
            pulse_rounds(now, 3) + seq![OutputInstruction::Wait(animation_instant(now, 7))]
        } else {
            seq![OutputInstruction::Wait(ticks_after_micros(now, PATTERN_HOLD_MICROS as nat))]
        }),
{
}

/// "seven" heard within two seconds of "six" needs a confidence of 0.45
/// only, and after the "seven" pattern the happy face flashes three times,
/// half a second on and half a second off.
pub proof fn lemma_six_seven_celebration(state: OutputControllerView, confidence: u16, now: u64)
    requires
        state.is_on,
        state.last_detected_word is Six,
        ticks_wrapping_sub(now, state.last_detected_timestamp) / 1000 <= DETECTION_MEMORY_MILLIS,
        confidence >= CONFIDENCE_THRESHOLD_AFTER_SIX,
        !state.is_repeated_detection(DetectableWord::Seven),
    ensures
        state.detection_outcome(DetectableWord::Seven, confidence, now) == DetectionOutcome::Accepted,
        state.new_output_sequence(DetectableWord::Seven, now).instructions
            == state.carried_over_instructions() + seq![
            OutputInstruction::DisplayPattern(word_pattern(DetectableWord::Seven)),
            OutputInstruction::Wait(animation_instant(now, 1)),
            OutputInstruction::DisplayPattern(&HAPPY_PATTERN),
            OutputInstruction::Wait(animation_instant(now, 2)),
            OutputInstruction::ClearDisplay,
            OutputInstruction::Wait(animation_instant(now, 3)),
            OutputInstruction::DisplayPattern(&HAPPY_PATTERN),
            OutputInstruction::Wait(animation_instant(now, 4)),
            OutputInstruction::ClearDisplay,
            OutputInstruction::Wait(animation_instant(now, 5)),
            OutputInstruction::DisplayPattern(&HAPPY_PATTERN),
            OutputInstruction::Wait(animation_instant(now, 6)),
        ],
{
    reveal_with_fuel(celebration_rounds, 4);
    assert(state.power_instructions(DetectableWord::Seven) =~= Seq::empty());
    assert(state.new_output_sequence(DetectableWord::Seven, now).instructions
        =~= state.carried_over_instructions() + seq![
        OutputInstruction::DisplayPattern(word_pattern(DetectableWord::Seven)),
        OutputInstruction::Wait(animation_instant(now, 1)),
        OutputInstruction::DisplayPattern(&HAPPY_PATTERN),
        OutputInstruction::Wait(animation_instant(now, 2)),
        OutputInstruction::ClearDisplay,
        OutputInstruction::Wait(animation_instant(now, 3)),
        OutputInstruction::DisplayPattern(&HAPPY_PATTERN),
        OutputInstruction::Wait(animation_instant(now, 4)),
        OutputInstruction::ClearDisplay,
        OutputInstruction::Wait(animation_instant(now, 5)),
        OutputInstruction::DisplayPattern(&HAPPY_PATTERN),
        OutputInstruction::Wait(animation_instant(now, 6)),
    ]);
}

/// A wait holds the output sequence: until the timer is past the wait's
/// instant, an update carries out nothing of the sequence and commands
/// nothing on the status LED, while the matrix scan goes on.
pub proof fn lemma_wait_holds_sequence(state: OutputControllerView, readings: Seq<u64>, deadline: u64)
    requires
        state.current_output_sequence matches Some(sequence) && sequence.pending_instructions().len() > 0
            && sequence.pending_instructions()[0] == OutputInstruction::Wait(deadline),
        readings.len() > 0,
        !instant_is_after(readings[0], deadline),
    ensures
        state.updating(readings).current_output_sequence == state.current_output_sequence,
        state.updating(readings).led_matrix == state.led_matrix.after_update(),
        state.processing_with(readings).1.status_led is None,
{
}

/// The animations, step by step, each step half a second. Only "seven"
/// right after "six" celebrates: the happy face flashes three times, the
/// display clearing between flashes. "wow" pulses its heart three times and
/// rests for a last step, whatever word came before it. Every other word,
/// "six" after "seven" among them, is held for two seconds.
pub proof fn lemma_detection_animation_steps(
    previous_word: DetectableWord,
    detected_word: DetectableWord,
    now: u64,
)
    ensures
        previous_word is Six && detected_word is Seven ==> detection_animation(
            previous_word,
            detected_word,
            now,
        ) == seq![
            OutputInstruction::Wait(ticks_after_micros(now, 500_000)),
            OutputInstruction::DisplayPattern(&HAPPY_PATTERN),
            OutputInstruction::Wait(ticks_after_micros(now, 1_000_000)),
            OutputInstruction::ClearDisplay,
            OutputInstruction::Wait(ticks_after_micros(now, 1_500_000)),
            OutputInstruction::DisplayPattern(&HAPPY_PATTERN),
            OutputInstruction::Wait(ticks_after_micros(now, 2_000_000)),
            OutputInstruction::ClearDisplay,
            OutputInstruction::Wait(ticks_after_micros(now, 2_500_000)),
            OutputInstruction::DisplayPattern(&HAPPY_PATTERN),
            OutputInstruction::Wait(ticks_after_micros(now, 3_000_000)),
        ],
        detected_word is Wow ==> detection_animation(previous_word, detected_word, now) == seq![
            OutputInstruction::Wait(ticks_after_micros(now, 500_000)),
            OutputInstruction::DisplayPattern(&WOW_PULSING_PATTERN),
            OutputInstruction::Wait(ticks_after_micros(now, 1_000_000)),
            OutputInstruction::DisplayPattern(&WOW_PATTERN),
            OutputInstruction::Wait(ticks_after_micros(now, 1_500_000)),
            OutputInstruction::DisplayPattern(&WOW_PULSING_PATTERN),
            OutputInstruction::Wait(ticks_after_micros(now, 2_000_000)),
            OutputInstruction::DisplayPattern(&WOW_PATTERN),
            OutputInstruction::Wait(ticks_after_micros(now, 2_500_000)),
            OutputInstruction::DisplayPattern(&WOW_PULSING_PATTERN),
            OutputInstruction::Wait(ticks_after_micros(now, 3_000_000)),
            OutputInstruction::DisplayPattern(&WOW_PATTERN),
            OutputInstruction::Wait(ticks_after_micros(now, 3_500_000)),
        ],
        !(previous_word is Six && detected_word is Seven) && !(detected_word is Wow)
            ==> detection_animation(previous_word, detected_word, now) == seq![
            OutputInstruction::Wait(ticks_after_micros(now, 2_000_000)),
        ],
{
    reveal_with_fuel(celebration_rounds, 4);
    reveal_with_fuel(pulse_rounds, 4);
    assert(celebration_rounds(now, 3) =~= seq![
        OutputInstruction::Wait(ticks_after_micros(now, 500_000)),
        OutputInstruction::DisplayPattern(&HAPPY_PATTERN),
        OutputInstruction::Wait(ticks_after_micros(now, 1_000_000)),
        OutputInstruction::ClearDisplay,
        OutputInstruction::Wait(ticks_after_micros(now, 1_500_000)),
        OutputInstruction::DisplayPattern(&HAPPY_PATTERN),
        OutputInstruction::Wait(ticks_after_micros(now, 2_000_000)),
        OutputInstruction::ClearDisplay,
        OutputInstruction::Wait(ticks_after_micros(now, 2_500_000)),
        OutputInstruction::DisplayPattern(&HAPPY_PATTERN),
        OutputInstruction::Wait(ticks_after_micros(now, 3_000_000)),
    ]);
    assert(pulse_rounds(now, 3) + seq![OutputInstruction::Wait(animation_instant(now, 7))] =~= seq![
        OutputInstruction::Wait(ticks_after_micros(now, 500_000)),
        OutputInstruction::DisplayPattern(&WOW_PULSING_PATTERN),
        OutputInstruction::Wait(ticks_after_micros(now, 1_000_000)),
        OutputInstruction::DisplayPattern(&WOW_PATTERN),
        OutputInstruction::Wait(ticks_after_micros(now, 1_500_000)),
        OutputInstruction::DisplayPattern(&WOW_PULSING_PATTERN),
        OutputInstruction::Wait(ticks_after_micros(now, 2_000_000)),
        OutputInstruction::DisplayPattern(&WOW_PATTERN),
        OutputInstruction::Wait(ticks_after_micros(now, 2_500_000)),
        OutputInstruction::DisplayPattern(&WOW_PULSING_PATTERN),
        OutputInstruction::Wait(ticks_after_micros(now, 3_000_000)),
        OutputInstruction::DisplayPattern(&WOW_PATTERN),
        OutputInstruction::Wait(ticks_after_micros(now, 3_500_000)),
    ]);
}

/// Which reports count, from the inputs alone. Turned off, the detector
/// ignores every word but "on". The catch-all class and silence never
/// count. Otherwise the confidence must reach 180 of 256 (0.7), lowered to
/// 116 of 256 (0.45) only when the last detection was "six" and at most two
/// seconds ago; no other remembered word lowers it. A word that counts
/// repeats the sequence in progress when that sequence is for the same word,
/// and starts a new sequence otherwise.
pub proof fn lemma_detection_outcome_by_inputs(
    state: OutputControllerView,
    word: DetectableWord,
    confidence: u16,
    now: u64,
)
    ensures
        state.detection_outcome(word, confidence, now) == (if !state.is_on && !(word is On) {
            DetectionOutcome::Ignored
        } else if word is Unknown || word is Silence || confidence < (if state.last_detected_word is Six
            && ticks_wrapping_sub(now, state.last_detected_timestamp) / 1000 <= 2000 {
            116u16
        } else {
            180u16
        }) {
            DetectionOutcome::Rejected
        } else if (match state.current_output_sequence {
            Some(sequence) => sequence.detected_word == word,
            None => false,
        }) {
            DetectionOutcome::Repeated
        } else {
            DetectionOutcome::Accepted
        }),
        !(word is Six) ==> confidence_threshold(word) == CONFIDENCE_THRESHOLD,
        confidence_threshold(DetectableWord::Six) == CONFIDENCE_THRESHOLD_AFTER_SIX,
{
}

/// A rejected report changes nothing but the forgetting of a memory older
/// than two seconds. In particular the time of the last detection stays that
/// of the last report that counted, so a word is forgotten two seconds after
/// it counted, however many rejected reports follow it.
pub proof fn lemma_rejected_report_keeps_memory(
    state: OutputControllerView,
    word: DetectableWord,
    confidence: u16,
    now: u64,
    later: u64,
)
    requires
        state.detection_outcome(word, confidence, now) == DetectionOutcome::Rejected,
    ensures
        state.handling_detected_word(word, confidence, now).last_detected_timestamp
            == state.last_detected_timestamp,
        state.handling_detected_word(word, confidence, now).last_detected_word == (if ticks_wrapping_sub(
            now,
            state.last_detected_timestamp,
        ) / 1000 > 2000 {
            DetectableWord::Unknown
        } else {
            state.last_detected_word
        }),
        state.handling_detected_word(word, confidence, now).is_on == state.is_on,
        state.handling_detected_word(word, confidence, now).current_output_sequence
            == state.current_output_sequence,
        state.handling_detected_word(word, confidence, now).led_matrix == state.led_matrix,
        ticks_wrapping_sub(later, state.last_detected_timestamp) / 1000 > 2000 ==> state.handling_detected_word(
            word,
            confidence,
            now,
        ).remembered_word(later) == DetectableWord::Unknown,
{
}

/// An accepted report is remembered with its time, turns the detector on
/// ("on") or off ("off"), and starts a new sequence for the word: the
/// cleanup that the replaced sequence had left, the status LED command when
/// the detector was turned on or off, the word's pattern, then the
/// animation for the word and the word remembered from the last two seconds,
/// with the clearing of the display as its cleanup.
pub proof fn lemma_accepted_report_starts_sequence(
    state: OutputControllerView,
    word: DetectableWord,
    confidence: u16,
    now: u64,
)
    requires
        state.detection_outcome(word, confidence, now) == DetectionOutcome::Accepted,
    ensures
        state.handling_detected_word(word, confidence, now).last_detected_word == word,
        state.handling_detected_word(word, confidence, now).last_detected_timestamp == now,
        state.handling_detected_word(word, confidence, now).is_on == (if word is On {
            true
        } else if word is Off {
            false
        } else {
            state.is_on
        }),
        state.handling_detected_word(word, confidence, now).led_matrix == state.led_matrix,
        state.handling_detected_word(word, confidence, now).current_output_sequence == Some(
            OutputSequenceView {
                detected_word: word,
                instructions: (match state.current_output_sequence {
                    Some(replaced) => replaced.final_cleanup_instructions.skip(
                        replaced.final_cleanup_instructions_processed as int,
                    ),
                    None => Seq::empty(),
                }) + (if !state.is_on {
                    seq![OutputInstruction::TurnOnStatusLED]
                } else if word is Off {
                    seq![OutputInstruction::TurnOffStatusLED]
                } else {
                    Seq::empty()
                }) + seq![OutputInstruction::DisplayPattern(word_pattern(word))] + detection_animation(
                    if ticks_wrapping_sub(now, state.last_detected_timestamp) / 1000 > 2000 {
                        DetectableWord::Unknown
                    } else {
                        state.last_detected_word
                    },
                    word,
                    now,
                ),
                instructions_processed: 0,
                final_cleanup_instructions: seq![OutputInstruction::ClearDisplay],
                final_cleanup_instructions_processed: 0,
            },
        ),
{
}

/// An update that carries out every instruction left, main and cleanup,
/// drops the sequence: a word heard again after its display ended starts a
/// new sequence.
pub proof fn lemma_finished_sequence_is_dropped(state: OutputControllerView, readings: Seq<u64>)
    requires
        state.current_output_sequence matches Some(sequence) && ({
            let main = replay(state.initial_effects(), sequence.pending_instructions(), readings);
            &&& main.1 == sequence.pending_instructions().len()
            &&& replay(main.0, sequence.pending_final_cleanup_instructions(), readings.skip(main.2 as int)).1
                == sequence.pending_final_cleanup_instructions().len()
        }),
    ensures
        state.updating(readings).current_output_sequence is None,
        forall|word: DetectableWord| !#[trigger] state.updating(readings).is_repeated_detection(word),
{
}

/// An update keeps a sequence only while something of it is left to carry
/// out: the same sequence, with no fewer instructions carried out than
/// before.
pub proof fn lemma_kept_sequence_is_unfinished(state: OutputControllerView, readings: Seq<u64>)
    requires
        state.wf(),
    ensures
        state.updating(readings).current_output_sequence matches Some(after) ==> {
            &&& state.current_output_sequence matches Some(before)
            &&& after.detected_word == before.detected_word
            &&& after.instructions == before.instructions
            &&& after.final_cleanup_instructions == before.final_cleanup_instructions
            &&& after.carried_out() >= before.carried_out()
            &&& after.remaining_instructions().len() > 0
        },
{
    if let Some(sequence) = state.current_output_sequence {
        lemma_replay_keeps_scan_row(state.initial_effects(), sequence.pending_instructions(), readings);
        let main = replay(state.initial_effects(), sequence.pending_instructions(), readings);
        lemma_replay_keeps_scan_row(
            main.0,
            sequence.pending_final_cleanup_instructions(),
            readings.skip(main.2 as int),
        );
    }
}

impl OutputController {
    pub closed spec fn wf(&self) -> bool {
        &&& self@.wf()
        &&& self.current_output_sequence matches Some(sequence) ==> sequence.wf()
    }

    /// A controller that is turned on, remembers no word, has no output
    /// sequence, and drives `led_matrix`; `now` is the current time.
    pub fn new(led_matrix: LEDMatrix, now: u64) -> (output_controller: Self)
        requires
            led_matrix@.wf(),
        ensures
            output_controller.wf(),
            output_controller@ == (OutputControllerView {
                led_matrix: led_matrix@,
                is_on: true,
                last_detected_word: DetectableWord::Unknown,
                last_detected_timestamp: now,
                current_output_sequence: None,
            }),
    {
        Self {
            led_matrix,
            is_on: true,
            last_detected_word: DetectableWord::Unknown,
            last_detected_timestamp: now,
            current_output_sequence: None,
        }
    }

    /// Whether the detector is turned on, which the status LED shows.
    pub fn is_on(&self) -> (is_on: bool)
        ensures
            is_on == self@.is_on,
    {
        self.is_on
    }

    /// Whether `now` may be reported for `detected_word`: a detection the
    /// controller responds to must not come before the previous one.
    pub fn is_in_time_order(&self, detected_word: DetectableWord, now: u64) -> (in_order: bool)
        ensures
            in_order == (self@.responds_to(detected_word) ==> !instant_is_before(
                now,
                self@.last_detected_timestamp,
            )),
    {
        if !self.is_on && detected_word != DetectableWord::On {
            true
        } else {
            !instant_before(now, self.last_detected_timestamp)
        }
    }

    /// Take a detection of `detected_word` with `confidence` (in 1/256 steps)
    /// made at `now`: decide whether it counts and start its output sequence.
    pub fn handle_detected_word(&mut self, detected_word: DetectableWord, confidence: u16, now: u64) -> (outcome: DetectionOutcome)
        requires
            old(self).wf(),
            old(self)@.responds_to(detected_word) ==> !instant_is_before(
                now,
                old(self)@.last_detected_timestamp,
            ),
        ensures
            final(self).wf(),
            final(self)@ == old(self)@.handling_detected_word(detected_word, confidence, now),
            outcome == old(self)@.detection_outcome(detected_word, confidence, now),
    {
        let ghost s0 = self@;
        let mut adaptive_confidence_threshold: u16 = CONFIDENCE_THRESHOLD;
        if !self.is_on && detected_word != DetectableWord::On {
            return DetectionOutcome::Ignored;
        }
        let current_timestamp = now;
        if millis_between(current_timestamp, self.last_detected_timestamp) > DETECTION_MEMORY_MILLIS {
            self.last_detected_word = DetectableWord::Unknown;
        } else {
            if self.last_detected_word == DetectableWord::Six {
                adaptive_confidence_threshold = CONFIDENCE_THRESHOLD_AFTER_SIX;
            }
        }
        if detected_word.is_valid() && confidence >= adaptive_confidence_threshold {
            let mut is_repeated_detection = false;
            let previous_output_sequence = self.current_output_sequence.take();
            if let Some(previous_output_sequence) = previous_output_sequence {
                if previous_output_sequence.detected_word() == detected_word {
                    is_repeated_detection = true;
                }
            }
            let outcome;
            if is_repeated_detection {
                self.current_output_sequence = previous_output_sequence;
                outcome = DetectionOutcome::Repeated;
            } else {
                proof {
                    if let Some(previous) = previous_output_sequence {
                        previous.lemma_wf_view();
                    }
                }
                let mut output_sequence = OutputSequence::new(detected_word, previous_output_sequence);
                let ghost base = output_sequence@.instructions;
                if !self.is_on && detected_word == DetectableWord::On {
                    self.is_on = true;
                    output_sequence.enqueue_instruction(OutputInstruction::TurnOnStatusLED);
                } else if self.is_on && detected_word == DetectableWord::Off {
                    self.is_on = false;
                    output_sequence.enqueue_instruction(OutputInstruction::TurnOffStatusLED);
                }
                output_sequence.enqueue_instruction(
                    OutputInstruction::DisplayPattern(detected_word.as_display_pattern()),
                );
                let ghost head = output_sequence@.instructions;
                assert(head =~= s0.carried_over_instructions() + s0.power_instructions(detected_word)
                    + seq![OutputInstruction::DisplayPattern(word_pattern(detected_word))]);
                match (self.last_detected_word, detected_word) {
                    (DetectableWord::Six, DetectableWord::Seven) => {
                        let happy = DetectableWord::Happy;
                        let mut future_timestamp = current_timestamp;
                        proof {
                            lemma_ticks_after_no_micros(current_timestamp);
                        }
                        for i in 0..3
                            invariant
                                output_sequence.wf(),
                                output_sequence@.detected_word == detected_word,
                                output_sequence@.instructions_processed == 0,
                                output_sequence@.final_cleanup_instructions == Seq::<OutputInstruction>::empty(),
                                output_sequence@.final_cleanup_instructions_processed == 0,
                                head.len() <= 3,
                                output_sequence@.instructions.len() <= head.len() + 4 * i,
                                happy == DetectableWord::Happy,
                                output_sequence@.instructions == head + celebration_rounds(
                                    current_timestamp,
                                    i as nat,
                                ),
                                future_timestamp == animation_instant(current_timestamp, 2 * i as nat),
                        {
                            proof {
                                lemma_ticks_after_micros_accumulates(
                                    current_timestamp,
                                    2 * (i as nat) * (ANIMATION_STEP_MICROS as nat),
                                    ANIMATION_STEP_MICROS,
                                );
                            }
                            future_timestamp = instant_plus_micros(future_timestamp, ANIMATION_STEP_MICROS);
                            output_sequence.enqueue_instruction(OutputInstruction::Wait(future_timestamp));
                            output_sequence.enqueue_instruction(
                                OutputInstruction::DisplayPattern(happy.as_display_pattern()),
                            );
                            proof {
                                lemma_ticks_after_micros_accumulates(
                                    current_timestamp,
                                    (2 * (i as nat) + 1) * (ANIMATION_STEP_MICROS as nat),
                                    ANIMATION_STEP_MICROS,
                                );
                            }
                            future_timestamp = instant_plus_micros(future_timestamp, ANIMATION_STEP_MICROS);
                            output_sequence.enqueue_instruction(OutputInstruction::Wait(future_timestamp));
                            if i < 2 {
                                output_sequence.enqueue_instruction(OutputInstruction::ClearDisplay);
                            }
                            assert(output_sequence@.instructions =~= head + celebration_rounds(
                                current_timestamp,
                                (i + 1) as nat,
                            ));
                        }
                    },
                    (_, DetectableWord::Wow) => {
                        let mut future_timestamp = current_timestamp;
                        proof {
                            lemma_ticks_after_no_micros(current_timestamp);
                        }
                        for _i in 0..3
                            invariant
                                output_sequence.wf(),
                                output_sequence@.detected_word == detected_word,
                                detected_word is Wow,
                                output_sequence@.instructions_processed == 0,
                                output_sequence@.final_cleanup_instructions == Seq::<OutputInstruction>::empty(),
                                output_sequence@.final_cleanup_instructions_processed == 0,
                                head.len() <= 3,
                                output_sequence@.instructions.len() <= head.len() + 4 * _i,
                                output_sequence@.instructions == head + pulse_rounds(
                                    current_timestamp,
                                    _i as nat,
                                ),
                                future_timestamp == animation_instant(current_timestamp, 2 * _i as nat),
                        {
                            proof {
                                lemma_ticks_after_micros_accumulates(
                                    current_timestamp,
                                    2 * (_i as nat) * (ANIMATION_STEP_MICROS as nat),
                                    ANIMATION_STEP_MICROS,
                                );
                            }
                            future_timestamp = instant_plus_micros(future_timestamp, ANIMATION_STEP_MICROS);
                            output_sequence.enqueue_instruction(OutputInstruction::Wait(future_timestamp));
                            output_sequence.enqueue_instruction(
                                OutputInstruction::DisplayPattern(&WOW_PULSING_PATTERN),
                            );
                            proof {
                                lemma_ticks_after_micros_accumulates(
                                    current_timestamp,
                                    (2 * (_i as nat) + 1) * (ANIMATION_STEP_MICROS as nat),
                                    ANIMATION_STEP_MICROS,
                                );
                            }
                            future_timestamp = instant_plus_micros(future_timestamp, ANIMATION_STEP_MICROS);
                            output_sequence.enqueue_instruction(OutputInstruction::Wait(future_timestamp));
                            output_sequence.enqueue_instruction(
                                OutputInstruction::DisplayPattern(detected_word.as_display_pattern()),
                            );
                            assert(output_sequence@.instructions =~= head + pulse_rounds(
                                current_timestamp,
                                (_i + 1) as nat,
                            ));
                        }
                        proof {
                            lemma_ticks_after_micros_accumulates(
                                current_timestamp,
                                6 * (ANIMATION_STEP_MICROS as nat),
                                ANIMATION_STEP_MICROS,
                            );
                        }
                        future_timestamp = instant_plus_micros(future_timestamp, ANIMATION_STEP_MICROS);
                        output_sequence.enqueue_instruction(OutputInstruction::Wait(future_timestamp));
                        assert(output_sequence@.instructions =~= head + (pulse_rounds(current_timestamp, 3)
                            + seq![OutputInstruction::Wait(animation_instant(current_timestamp, 7))]));
                    },
                    _ => {
                        proof {
                            lemma_ticks_after_no_micros(current_timestamp);
                            lemma_ticks_after_micros_accumulates(current_timestamp, 0, PATTERN_HOLD_MICROS);
                        }
                        output_sequence.enqueue_instruction(
                            OutputInstruction::Wait(instant_plus_micros(current_timestamp, PATTERN_HOLD_MICROS)),
                        );
                    },
                }
                output_sequence.enqueue_final_cleanup_instruction(OutputInstruction::ClearDisplay);
                assert(output_sequence@.instructions =~= s0.new_output_sequence(detected_word, now).instructions);
                self.current_output_sequence = Some(output_sequence);
                outcome = DetectionOutcome::Accepted;
            }
            self.last_detected_word = detected_word;
            self.last_detected_timestamp = current_timestamp;
            outcome
        } else {
            DetectionOutcome::Rejected
        }
    }

    /// One output step, run every millisecond: carries out the output
    /// sequence as far as the clock allows, reading `clock` at each wait it
    /// meets, then scans the next LED matrix row. Returns what to drive on
    /// the pins. Whatever the clock reads, the result is what `updating` and
    /// `drives` give for those readings.
    pub fn update<C: OutputClock>(&mut self, clock: &C) -> (frame: OutputFrame)
        requires
            old(self).wf(),
        ensures
            final(self).wf(),
            exists|readings: Seq<u64>|
                final(self)@ == old(self)@.updating(readings) && old(self)@.drives(readings, frame),
    {
        let ghost s0 = self@;
        let mut executor = OutputInstructionExecutor::new(self.led_matrix, clock);
        let ghost e0 = executor@;
        if let Some(mut current_output_sequence) = self.current_output_sequence.take() {
            let did_process_all_instructions = current_output_sequence.process(&mut executor);
            proof {
                let sequence = s0.current_output_sequence->Some_0;
                let after = current_output_sequence@;
                let end = executor@;
                let readings = end.clock_readings;
                let main = (after.instructions_processed - sequence.instructions_processed) as nat;
                let cleanup = (after.final_cleanup_instructions_processed
                    - sequence.final_cleanup_instructions_processed) as nat;
                if main == sequence.pending_instructions().len() {
                    let middle = choose|middle: OutputInstructionExecutorView|
                        #[trigger] runs::<OutputInstructionExecutor<C>>(
                            e0,
                            sequence.pending_instructions(),
                            middle,
                            main,
                        ) && runs::<OutputInstructionExecutor<C>>(
                            middle,
                            sequence.pending_final_cleanup_instructions(),
                            end,
                            cleanup,
                        );
                    let used = middle.clock_readings.len() as int;
                    lemma_executor_runs_replay::<C>(
                        middle,
                        sequence.pending_final_cleanup_instructions(),
                        end,
                        cleanup,
                        Seq::empty(),
                    );
                    lemma_executor_runs_replay::<C>(
                        e0,
                        sequence.pending_instructions(),
                        middle,
                        main,
                        readings.skip(used),
                    );
                    assert(middle.clock_readings.skip(0) + readings.skip(used) =~= readings);
                    assert(readings.skip(used) + Seq::<u64>::empty() =~= readings.skip(used));
                    lemma_replay_keeps_scan_row(
                        e0.effects,
                        sequence.pending_instructions(),
                        readings,
                    );
                    lemma_replay_keeps_scan_row(
                        middle.effects,
                        sequence.pending_final_cleanup_instructions(),
                        readings.skip(used),
                    );
                } else {
                    lemma_executor_runs_replay::<C>(
                        e0,
                        sequence.pending_instructions(),
                        end,
                        main,
                        Seq::empty(),
                    );
                    assert(readings.skip(0) + Seq::<u64>::empty() =~= readings);
                    lemma_replay_keeps_scan_row(e0.effects, sequence.pending_instructions(), readings);
                }
            }
            if !did_process_all_instructions {
                proof {
                    current_output_sequence.lemma_wf_view();
                }
                self.current_output_sequence = Some(current_output_sequence);
            }
        }
        proof {
            if s0.current_output_sequence is None {
                assert(s0.processing_with(executor@.clock_readings).1 == executor@.effects);
            }
        }
        self.led_matrix = executor.led_matrix;
        let row_scan = self.led_matrix.update();
        let frame = OutputFrame { status_led: executor.status_led, row_scan };
        assert(self@ == s0.updating(executor@.clock_readings));
        frame
    }

    /// The controller's invariant as stated over its view.
    pub proof fn lemma_wf_view(&self)
        requires
            self.wf(),
        ensures
            self@.wf(),
    {
    }
}

} // verus!
