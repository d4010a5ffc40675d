use vstd::prelude::*;

use crate::detectable_words::{
    word_at_index,
    DetectableWord,
};

verus! {

/// Samples in one DMA buffer: 250 ms of audio at 16 kHz.
pub const DMA_BUFFER_SAMPLES: usize = 4000;

/// Samples in the sliding window that the model listens to: one second.
pub const AUDIO_WINDOW_SAMPLES: usize = 16000;

/// Zero point of the model's int8 outputs.
pub const OUTPUT_ZERO_POINT: i32 = -128;

/// Shift the sliding window by one DMA buffer: the oldest samples leave at
/// the front and the freshly captured ones are appended at the end.
pub fn slide_audio_window(
    audio_window: &mut [u32; AUDIO_WINDOW_SAMPLES],
    filled_buffer: &[u32; DMA_BUFFER_SAMPLES],
)
    ensures
        final(audio_window)@ == slid_window(old(audio_window)@, filled_buffer@),
{
    let ghost old_window = audio_window@;
    let kept = AUDIO_WINDOW_SAMPLES - DMA_BUFFER_SAMPLES;
    for i in 0..kept
        invariant
            kept == AUDIO_WINDOW_SAMPLES - DMA_BUFFER_SAMPLES,
            forall|j: int| 0 <= j < i ==> #[trigger] audio_window@[j] == old_window[j + DMA_BUFFER_SAMPLES],
            forall|j: int| i <= j < AUDIO_WINDOW_SAMPLES ==> #[trigger] audio_window@[j] == old_window[j],
    {
        audio_window[i] = audio_window[i + DMA_BUFFER_SAMPLES];
    }
    for i in 0..DMA_BUFFER_SAMPLES
        invariant
            kept == AUDIO_WINDOW_SAMPLES - DMA_BUFFER_SAMPLES,
            forall|j: int| 0 <= j < kept ==> #[trigger] audio_window@[j] == old_window[j + DMA_BUFFER_SAMPLES],
            forall|j: int| 0 <= j < i ==> #[trigger] audio_window@[kept + j] == filled_buffer@[j],
    {
        audio_window[kept + i] = filled_buffer[i];
    }
    assert(audio_window@ =~= old_window.skip(DMA_BUFFER_SAMPLES as int) + filled_buffer@) by {
        assert forall|j: int| 0 <= j < AUDIO_WINDOW_SAMPLES implies #[trigger] audio_window@[j] == (
        old_window.skip(DMA_BUFFER_SAMPLES as int) + filled_buffer@)[j] by {
            if j >= kept {
                assert(audio_window@[kept + (j - kept)] == filled_buffer@[j - kept]);
            }
        }
    }
}

/// The window after sliding in `filled_buffer`.
pub open spec fn slid_window(audio_window: Seq<u32>, filled_buffer: Seq<u32>) -> Seq<u32> {
    audio_window.skip(DMA_BUFFER_SAMPLES as int) + filled_buffer
}

/// The window after sliding in each of `buffers`, the first one first.
pub open spec fn slid_window_over(audio_window: Seq<u32>, buffers: Seq<Seq<u32>>) -> Seq<u32>
    decreases buffers.len(),
{
    if buffers.len() == 0 {
        audio_window
    } else {
        slid_window(slid_window_over(audio_window, buffers.drop_last()), buffers.last())
    }
}

/// All of `buffers` one after the other, the first one first.
pub open spec fn concatenation(buffers: Seq<Seq<u32>>) -> Seq<u32>
    decreases buffers.len(),
{
    if buffers.len() == 0 {
        Seq::empty()
    } else {
        concatenation(buffers.drop_last()) + buffers.last()
    }
}

proof fn lemma_concatenation_len(buffers: Seq<Seq<u32>>)
    requires
        forall|k: int| 0 <= k < buffers.len() ==> (#[trigger] buffers[k]).len() == DMA_BUFFER_SAMPLES,
    ensures
        concatenation(buffers).len() == DMA_BUFFER_SAMPLES * buffers.len(),
    decreases buffers.len(),
{
    if buffers.len() > 0 {
        let previous = buffers.drop_last();
        assert forall|k: int| 0 <= k < previous.len() implies (#[trigger] previous[k]).len()
            == DMA_BUFFER_SAMPLES by {
            assert(previous[k] == buffers[k]);
        }
        lemma_concatenation_len(previous);
        assert(buffers.last() == buffers[buffers.len() - 1]);
    }
}

/// However many buffers slide through, the window keeps its length and
/// holds the last second of everything it has seen: the first window
/// followed by every buffer in turn, less the oldest samples, one buffer's
/// worth per slide.
pub proof fn lemma_window_after_any_number_of_slides(audio_window: Seq<u32>, buffers: Seq<Seq<u32>>)
    requires
        audio_window.len() == AUDIO_WINDOW_SAMPLES,
        forall|k: int| 0 <= k < buffers.len() ==> (#[trigger] buffers[k]).len() == DMA_BUFFER_SAMPLES,
    ensures
        slid_window_over(audio_window, buffers).len() == AUDIO_WINDOW_SAMPLES,
        slid_window_over(audio_window, buffers) == (audio_window + concatenation(buffers)).skip(
            DMA_BUFFER_SAMPLES * buffers.len(),
        ),
    decreases buffers.len(),
{
    let n = buffers.len();
    if n == 0 {
        assert(audio_window + concatenation(buffers) =~= audio_window);
        assert(audio_window.skip(0) =~= audio_window);
    } else {
        let previous = buffers.drop_last();
        assert forall|k: int| 0 <= k < previous.len() implies (#[trigger] previous[k]).len()
            == DMA_BUFFER_SAMPLES by {
            assert(previous[k] == buffers[k]);
        }
        lemma_window_after_any_number_of_slides(audio_window, previous);
        lemma_concatenation_len(previous);
        assert(buffers.last() == buffers[n - 1]);
        let seen = audio_window + concatenation(previous);
        let shift = DMA_BUFFER_SAMPLES * (n - 1);
        assert(seen.len() == AUDIO_WINDOW_SAMPLES + shift);
        assert(audio_window + concatenation(buffers) =~= seen + buffers.last());
        assert(seen.skip(shift).skip(DMA_BUFFER_SAMPLES as int) + buffers.last() =~= (seen
            + buffers.last()).skip(shift + DMA_BUFFER_SAMPLES));
    }
}

/// The window keeps its length, and after four slides it holds exactly the
/// last four buffers, oldest first: the last second of audio.
pub proof fn lemma_window_holds_last_second(
    audio_window: Seq<u32>,
    first: Seq<u32>,
    second: Seq<u32>,
    third: Seq<u32>,
    fourth: Seq<u32>,
)
    requires
        audio_window.len() == AUDIO_WINDOW_SAMPLES,
        first.len() == DMA_BUFFER_SAMPLES,
        second.len() == DMA_BUFFER_SAMPLES,
        third.len() == DMA_BUFFER_SAMPLES,
        fourth.len() == DMA_BUFFER_SAMPLES,
    ensures
        slid_window(audio_window, first).len() == AUDIO_WINDOW_SAMPLES,
        slid_window(slid_window(slid_window(slid_window(audio_window, first), second), third), fourth)
            == first + second + third + fourth,
{
    let w1 = slid_window(audio_window, first);
    let w2 = slid_window(w1, second);
    let w3 = slid_window(w2, third);
    assert(w2.skip(DMA_BUFFER_SAMPLES as int) =~= audio_window.skip(3 * DMA_BUFFER_SAMPLES as int) + first + second);
    assert(w3.skip(DMA_BUFFER_SAMPLES as int) =~= first + second + third);
    assert(slid_window(w3, fourth) =~= first + second + third + fourth);
}

/// `index` is the first position that holds the largest score of `output`.
pub open spec fn is_first_strongest(output: Seq<i8>, index: int) -> bool {
    &&& 0 <= index < output.len()
    &&& forall|j: int| 0 <= j < output.len() ==> output[j] <= output[index]
    &&& forall|j: int| 0 <= j < index ==> output[j] < output[index]
}

/// The word that the model output at `index` stands for; positions past the
/// known words count as an unknown word.
pub open spec fn word_for_output(index: int) -> DetectableWord {
    match word_at_index(index as nat) {
        Some(word) => word,
        None => DetectableWord::Unknown,
    }
}

/// The confidence, in 1/256 steps, of an output score: the score minus the
/// output's zero point.
pub open spec fn confidence_of_score(score: i8) -> u16 {
    (score - OUTPUT_ZERO_POINT) as u16
}

/// The model output with the highest score: its position and its score.
/// Ties go to the first position.
pub fn strongest_output(output: &[i8]) -> (strongest_output: (usize, i8))
    ensures
        output@.len() == 0 ==> strongest_output == (0usize, i8::MIN),
        output@.len() > 0 ==> {
            &&& is_first_strongest(output@, strongest_output.0 as int)
            &&& strongest_output.1 == output@[strongest_output.0 as int]
        },
{
    let mut max_index = 0usize;
    let mut max_value = i8::MIN;
    for i in 0..output.len()
        invariant
            output@.len() == 0 ==> max_index == 0 && max_value == i8::MIN,
            i > 0 ==> max_index < i && max_value == output@[max_index as int],
            i == 0 ==> max_index == 0 && max_value == i8::MIN,
            forall|j: int| 0 <= j < i ==> output@[j] <= max_value,
            forall|j: int| 0 <= j < max_index ==> output@[j] < max_value,
            max_value == i8::MIN ==> max_index == 0,
    {
        if output[i] > max_value {
            max_value = output[i];
            max_index = i;
        }
    }
    (max_index, max_value)
}

/// The confidence, in 1/256 steps, of an output score.
pub fn confidence_level(score: i8) -> (confidence: u16)
    ensures
        confidence == confidence_of_score(score),
        confidence < 256,
{
    (score as i16 - OUTPUT_ZERO_POINT as i16) as u16
}

/// What the model's output says: the word with the highest score (the first
/// one on a tie, an unknown word past the known positions) and the
/// confidence of that score. No output at all reads as the first word with
/// no confidence.
pub fn detection_from_output(output: &[i8]) -> (detection: (DetectableWord, u16))
    ensures
        output@.len() == 0 ==> detection == (DetectableWord::Six, 0u16),
        output@.len() > 0 ==> exists|index: int|
            is_first_strongest(output@, index) && detection == (
                word_for_output(index),
                confidence_of_score(output@[index]),
            ),
{
    let (max_index, max_value) = strongest_output(output);
    let detected_word = match DetectableWord::from_index(max_index) {
        Some(word) => word,
        None => DetectableWord::Unknown,
    };
    let confidence = confidence_level(max_value);
    proof {
        if output@.len() > 0 {
            assert(is_first_strongest(output@, max_index as int));
        }
    }
    (detected_word, confidence)
}

} // verus!
