use vstd::prelude::*;

use super::display_patterns::BLANK_PATTERN;

verus! {

/// An 8x8 grid of LEDs: row 0 is the top row, column 0 the leftmost column,
/// `true` means the LED is lit.
pub type DisplayPattern = [[bool; 8]; 8];

/// Number of rows, and of columns, of the LED matrix.
pub const LED_MATRIX_SIZE: usize = 8;

/// Types that can be displayed on the LED matrix.
pub trait LEDMatrixDisplayable {
    /// The pattern that represents the value.
    spec fn display_pattern(&self) -> DisplayPattern;

    fn as_display_pattern(&self) -> (pattern: &'static DisplayPattern)
        ensures
            *pattern == self.display_pattern(),
    ;
}

/// What one scan step drives on the matrix pins: the row to activate, and
/// the level of each column pin (`true` = high = LED off, since a column
/// pulled low lights the LED in the active row).
#[derive(Clone, Copy, Debug, PartialEq, Eq)]
pub struct RowScan {
    pub row_index: usize,
    pub column_levels: [bool; 8],
}

/// The state of the row-scanning driver of the LED matrix.
#[derive(Clone, Copy)]
pub struct LEDMatrix {
    /// The buffer that `display` writes.
    display_pattern: DisplayPattern,
    /// The copy being rendered; taken from `display_pattern` only when a
    /// scan cycle starts again at row 0, so that a frame is never torn.
    rendering_display_pattern: DisplayPattern,
    /// The row that the next scan step drives.
    current_row_index: usize,
}

/// The mathematical state of an [`LEDMatrix`].
pub struct LEDMatrixView {
    pub display_pattern: DisplayPattern,
    pub rendering_display_pattern: DisplayPattern,
    pub current_row_index: nat,
}

impl LEDMatrixView {
    pub open spec fn wf(self) -> bool {
        self.current_row_index < LED_MATRIX_SIZE
    }

    /// The state after `display(pattern)`.
    pub open spec fn displaying(self, pattern: DisplayPattern) -> LEDMatrixView {
        LEDMatrixView {
            display_pattern: pattern,
            rendering_display_pattern: self.rendering_display_pattern,
            current_row_index: self.current_row_index,
        }
    }

    /// The pattern that the next scan step renders: a fresh copy of the
    /// display buffer at the start of a cycle, else the frame in progress.
    pub open spec fn frame_pattern(self) -> DisplayPattern {
        if self.current_row_index == 0 {
            self.display_pattern
        } else {
            self.rendering_display_pattern
        }
    }

    /// The state after one scan step.
    pub open spec fn after_update(self) -> LEDMatrixView {
        LEDMatrixView {
            display_pattern: self.display_pattern,
            rendering_display_pattern: self.frame_pattern(),
            current_row_index: ((self.current_row_index + 1) % (LED_MATRIX_SIZE as nat)) as nat,
        }
    }

    /// The state after `steps` scan steps, with no pattern displayed meanwhile.
    pub open spec fn after_updates(self, steps: nat) -> LEDMatrixView
        decreases steps,
    {
        if steps == 0 {
            self
        } else {
            self.after_updates((steps - 1) as nat).after_update()
        }
    }

    /// `scan` is what the next scan step drives: the current row, with each
    /// column low exactly where the frame lights that row.
    pub open spec fn drives(self, scan: RowScan) -> bool {
        &&& scan.row_index == self.current_row_index
        &&& forall|c: int|
            0 <= c < LED_MATRIX_SIZE ==> #[trigger] scan.column_levels[c] == !self.frame_pattern()[
                self.current_row_index as int][c]
    }
}

/// The rows are scanned in order, one per step, coming back to the same row
/// every eight steps: at one step per millisecond the whole matrix refreshes
/// at 125 Hz.
pub proof fn lemma_rows_scanned_in_cycle(led_matrix: LEDMatrixView, steps: nat)
    requires
        led_matrix.wf(),
    ensures
        led_matrix.after_updates(steps).wf(),
        led_matrix.after_updates(steps).current_row_index == (led_matrix.current_row_index + steps)
            % (LED_MATRIX_SIZE as nat),
        led_matrix.after_updates(steps).display_pattern == led_matrix.display_pattern,
    decreases steps,
{
    if steps > 0 {
        lemma_rows_scanned_in_cycle(led_matrix, (steps - 1) as nat);
    }
}

/// A displayed pattern is shown whole: the eight steps of a cycle that
/// starts after `display` all render that pattern, row after row, while a
/// cycle already under way goes on with the frame it started with.
pub proof fn lemma_display_shows_whole_frames(
    led_matrix: LEDMatrixView,
    display_pattern: DisplayPattern,
    step: nat,
)
    requires
        led_matrix.wf(),
        step < LED_MATRIX_SIZE,
    ensures
        led_matrix.current_row_index != 0 ==> led_matrix.displaying(display_pattern).frame_pattern()
            == led_matrix.frame_pattern(),
        led_matrix.current_row_index == 0 ==> {
            &&& led_matrix.displaying(display_pattern).after_updates(step).current_row_index == step
            &&& led_matrix.displaying(display_pattern).after_updates(step).frame_pattern()
                == display_pattern
        },
    decreases step,
{
    if step > 0 {
        lemma_display_shows_whole_frames(led_matrix, display_pattern, (step - 1) as nat);
        lemma_rows_scanned_in_cycle(led_matrix.displaying(display_pattern), (step - 1) as nat);
    }
}

/// Within a scan cycle that starts at the top row, step `step` scans row
/// `step` from the pattern the display buffer held when the cycle started,
/// whatever was displayed in between.
proof fn lemma_scan_cycle_step(
    states: Seq<LEDMatrixView>,
    display_patterns: Seq<DisplayPattern>,
    step: int,
)
    requires
        states.len() == LED_MATRIX_SIZE,
        display_patterns.len() == LED_MATRIX_SIZE - 1,
        states[0].wf(),
        states[0].current_row_index == 0,
        forall|k: int|
            0 <= k < LED_MATRIX_SIZE - 1 ==> #[trigger] states[k + 1] == states[k].after_update().displaying(
                display_patterns[k],
            ),
        0 <= step < LED_MATRIX_SIZE,
    ensures
        states[step].current_row_index == step,
        states[step].frame_pattern() == states[0].display_pattern,
    decreases step,
{
    if step > 0 {
        lemma_scan_cycle_step(states, display_patterns, step - 1);
        assert(states[step] == states[step - 1].after_update().displaying(display_patterns[step - 1]));
    }
}

/// A scan cycle shows one frame whole: starting at the top row, eight scan
/// steps drive rows 0 to 7 in order, each once, all from the pattern that
/// was in the display buffer when the cycle started, whatever is displayed
/// between the steps (any number of `display` or `clear_display` calls
/// leaves the buffer holding one pattern), and the next cycle starts at the
/// top row again. At one step per millisecond that is 125 frames a second.
pub proof fn lemma_scan_cycle_shows_one_frame(
    states: Seq<LEDMatrixView>,
    display_patterns: Seq<DisplayPattern>,
    scans: Seq<RowScan>,
)
    requires
        states.len() == LED_MATRIX_SIZE,
        display_patterns.len() == LED_MATRIX_SIZE - 1,
        scans.len() == LED_MATRIX_SIZE,
        states[0].wf(),
        states[0].current_row_index == 0,
        forall|k: int| 0 <= k < LED_MATRIX_SIZE ==> #[trigger] states[k].drives(scans[k]),
        forall|k: int|
            0 <= k < LED_MATRIX_SIZE - 1 ==> #[trigger] states[k + 1] == states[k].after_update().displaying(
                display_patterns[k],
            ),
    ensures
        forall|k: int| 0 <= k < LED_MATRIX_SIZE ==> #[trigger] scans[k].row_index == k,
        forall|k: int, c: int|
            0 <= k < LED_MATRIX_SIZE && 0 <= c < LED_MATRIX_SIZE ==> #[trigger] scans[k].column_levels[c]
                == !states[0].display_pattern[k][c],
        states[LED_MATRIX_SIZE - 1].after_update().current_row_index == 0,
{
    assert forall|k: int| 0 <= k < LED_MATRIX_SIZE implies #[trigger] scans[k].row_index == k by {
        lemma_scan_cycle_step(states, display_patterns, k);
        assert(states[k].drives(scans[k]));
    }
    assert forall|k: int, c: int|
        0 <= k < LED_MATRIX_SIZE && 0 <= c < LED_MATRIX_SIZE implies #[trigger] scans[k].column_levels[c]
            == !states[0].display_pattern[k][c] by {
        lemma_scan_cycle_step(states, display_patterns, k);
        assert(states[k].drives(scans[k]));
    }
    lemma_scan_cycle_step(states, display_patterns, LED_MATRIX_SIZE - 1);
}

impl View for LEDMatrix {
    type V = LEDMatrixView;

    closed spec fn view(&self) -> LEDMatrixView {
        LEDMatrixView {
            display_pattern: self.display_pattern,
            rendering_display_pattern: self.rendering_display_pattern,
            current_row_index: self.current_row_index as nat,
        }
    }
}

impl LEDMatrix {
    /// A blank matrix whose next scan step drives the top row.
    pub fn new() -> (led_matrix: Self)
        ensures
            led_matrix@ == (LEDMatrixView {
                display_pattern: BLANK_PATTERN,
                rendering_display_pattern: BLANK_PATTERN,
                current_row_index: 0,
            }),
    {
        Self {
            display_pattern: BLANK_PATTERN,
            rendering_display_pattern: BLANK_PATTERN,
            current_row_index: 0,
        }
    }

    /// Update the display buffer; the new pattern shows from the next scan cycle on.
    pub fn display(&mut self, display_pattern: &DisplayPattern)
        ensures
            final(self)@ == old(self)@.displaying(*display_pattern),
    {
        self.display_pattern = *display_pattern;
    }

    /// Blank the display buffer.
    pub fn clear_display(&mut self)
        ensures
            final(self)@ == old(self)@.displaying(BLANK_PATTERN),
    {
        self.display(&BLANK_PATTERN);
    }

    /// One scan step, meant to run once every millisecond so that the eight
    /// rows refresh at 125 Hz: returns what to drive on the pins for the
    /// current row and moves on to the next row.
    pub fn update(&mut self) -> (scan: RowScan)
        requires
            old(self)@.wf(),
        ensures
            old(self)@.drives(scan),
            final(self)@ == old(self)@.after_update(),
            final(self)@.wf(),
    {
        let row_index = self.current_row_index;
        if row_index == 0 {
            self.rendering_display_pattern = self.display_pattern;
        }
        let display_pattern = self.rendering_display_pattern;
        let mut column_levels = [false; 8];
        for column_index in 0..LED_MATRIX_SIZE
            invariant
                row_index < LED_MATRIX_SIZE,
                forall|c: int|
                    0 <= c < column_index ==> #[trigger] column_levels[c]
                        == !display_pattern[row_index as int][c],
        {
            column_levels[column_index] = !display_pattern[row_index][column_index];
        }
        self.current_row_index = (row_index + 1) % LED_MATRIX_SIZE;
        RowScan { row_index, column_levels }
    }
}

} // verus!
