//! Decision logic of a wake word detector: the words it recognises, how a
//! model's scores become a detection, how detections turn into timed output
//! sequences, and how those sequences drive an 8x8 LED matrix.
pub mod audio;
pub mod audio_features;
pub mod detectable_words;
pub mod inference;
pub mod output;
