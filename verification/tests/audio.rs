use wake_word_detector::audio::task::{
    confidence_level, detection_from_output, slide_audio_window, strongest_output,
    AUDIO_WINDOW_SAMPLES, DMA_BUFFER_SAMPLES,
};
use wake_word_detector::audio_features::raw_sample_value;
use wake_word_detector::detectable_words::DetectableWord;

#[test]
fn raw_samples_are_sign_extended_top_bits() {
    assert_eq!(raw_sample_value(0), 0);
    assert_eq!(raw_sample_value(0x0000_3FFF), 0);
    assert_eq!(raw_sample_value(0x0000_4000), 1);
    assert_eq!(raw_sample_value(0x0001_0000), 4);
    assert_eq!(raw_sample_value(0x7FFF_FFFF), 131_071);
    assert_eq!(raw_sample_value(0x8000_0000), -131_072);
    assert_eq!(raw_sample_value(0xFFFF_C000), -1);
    assert_eq!(raw_sample_value(0xFFFF_FFFF), -1);
    assert_eq!(raw_sample_value(0xFFFF_8000), -2);
}

#[test]
fn strongest_output_takes_first_maximum() {
    assert_eq!(strongest_output(&[]), (0, i8::MIN));
    assert_eq!(strongest_output(&[1, 5, 3, 5]), (1, 5));
    assert_eq!(strongest_output(&[-128, -128, -128]), (0, -128));
    assert_eq!(strongest_output(&[-128, -127]), (1, -127));
    assert_eq!(strongest_output(&[127]), (0, 127));
}

#[test]
fn confidence_counts_steps_above_zero_point() {
    assert_eq!(confidence_level(-128), 0);
    assert_eq!(confidence_level(0), 128);
    assert_eq!(confidence_level(51), 179);
    assert_eq!(confidence_level(52), 180);
    assert_eq!(confidence_level(127), 255);
}

#[test]
fn detection_reads_word_and_confidence() {
    let mut output = [-128i8; 12];
    output[1] = 60;
    output[4] = 60;
    assert_eq!(detection_from_output(&output), (DetectableWord::Seven, 188));
    let mut output = [-100i8; 12];
    output[11] = -20;
    assert_eq!(detection_from_output(&output), (DetectableWord::Silence, 108));
    let mut output = [-100i8; 14];
    output[13] = 90;
    assert_eq!(detection_from_output(&output), (DetectableWord::Unknown, 218));
    assert_eq!(detection_from_output(&[]), (DetectableWord::Six, 0));
}

#[test]
fn window_slides_by_one_buffer() {
    let mut window = [0u32; AUDIO_WINDOW_SAMPLES];
    for (i, sample) in window.iter_mut().enumerate() {
        *sample = i as u32;
    }
    let mut buffer = [0u32; DMA_BUFFER_SAMPLES];
    for (i, sample) in buffer.iter_mut().enumerate() {
        *sample = 100_000 + i as u32;
    }
    slide_audio_window(&mut window, &buffer);
    assert_eq!(window[0], 4000);
    assert_eq!(window[11_999], 15_999);
    assert_eq!(window[12_000], 100_000);
    assert_eq!(window[15_999], 103_999);
}

#[test]
fn four_slides_hold_the_last_second() {
    let mut window = [7u32; AUDIO_WINDOW_SAMPLES];
    for round in 0..4u32 {
        let buffer = [round; DMA_BUFFER_SAMPLES];
        slide_audio_window(&mut window, &buffer);
    }
    for (i, sample) in window.iter().enumerate() {
        assert_eq!(*sample, (i / DMA_BUFFER_SAMPLES) as u32);
    }
}

#[test]
fn any_number_of_slides_keep_the_last_second() {
    let mut window = [0u32; AUDIO_WINDOW_SAMPLES];
    for (i, sample) in window.iter_mut().enumerate() {
        *sample = 1_000_000 + i as u32;
    }
    let mut seen: Vec<u32> = window.to_vec();
    for round in 0..6u32 {
        let mut buffer = [0u32; DMA_BUFFER_SAMPLES];
        for (i, sample) in buffer.iter_mut().enumerate() {
            *sample = round * 10_000 + i as u32;
        }
        slide_audio_window(&mut window, &buffer);
        seen.extend_from_slice(&buffer);
        let last_second = &seen[seen.len() - AUDIO_WINDOW_SAMPLES..];
        assert_eq!(&window[..], last_second);
    }
}
