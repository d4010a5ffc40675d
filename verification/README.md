# wake_word_detector

The decision logic of a wake word detector that runs on a Raspberry Pi Pico 2:
a microphone feeds a keyword model, and detected words drive an 8x8 LED matrix
and a status LED. The library in `src/` is verified with Verus; `app/` is the
firmware around it.

- `src/detectable_words.rs`: the words the model knows, their names and their
  positions among the model's outputs.
- `src/audio/task.rs`: the one-second sliding window over the microphone
  samples, and how the model's int8 outputs become a word and a confidence.
- `src/audio_features.rs`: decoding the microphone's 18-bit samples.
- `src/inference/tflite.rs`: the status codes of the TFLite Micro wrapper.
- `src/output/`: display patterns, the row-scanning LED matrix driver, output
  instructions and sequences, the microsecond timestamps (computed with the
  HAL's `fugit` instants), and the output controller that turns detections
  into timed sequences and runs them once per millisecond, each wait reading
  the clock (an `OutputClock` that the firmware backs with the hardware
  timer).

`app/` holds what Verus does not check: peripheral set-up, PIO and DMA audio
capture, the floating-point feature extraction, the TFLite Micro calls, the
timer interrupt and the GPIO pins.
