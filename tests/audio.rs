use derby_voice::capture::{poll_capture, AudioRecordingBuilder, CaptureError, CaptureStrategy, PollDecision};
use derby_voice::mode::TranscriptionMode;
use derby_voice::recording::{AudioRecording, SampleFormat, StreamConfig};
use derby_voice::resample::{resample_audio, ResampleError, TARGET_SAMPLE_RATE};
use derby_voice::vad::has_speech_ended;

fn config(sample_rate: u32, channels: u16) -> StreamConfig {
    StreamConfig { channels, sample_rate }
}

#[test]
fn stopped_capture_holds_pushed_batches_in_order() {
    let sink = std::sync::Arc::new(std::sync::Mutex::new(AudioRecordingBuilder::start(
        config(48000, 1),
        SampleFormat::F32,
    )));
    let batches: Vec<Vec<f32>> = vec![vec![0.1, 0.2], vec![], vec![-0.5, 0.25, 1.0]];
    for batch in &batches {
        sink.lock().unwrap().push_samples(batch);
    }
    let session = std::sync::Arc::try_unwrap(sink).ok().unwrap().into_inner().unwrap();
    assert_eq!(session.captured_len(), 5);
    let rec = session.stop_capture();
    assert_eq!(rec.audio_data, vec![0.1, 0.2, -0.5, 0.25, 1.0]);
    assert_eq!(rec.config, config(48000, 1));
    assert_eq!(rec.sample_format, SampleFormat::F32);
    assert_eq!(rec.len(), 5);
}

#[test]
fn samples_after_stop_are_not_taken_and_running_sink_is_unavailable() {
    let mut running = AudioRecordingBuilder::<i16>::start(config(16000, 2), SampleFormat::I16);
    running.push_samples(&[1, 2]);
    assert!(running.is_streaming());
    assert!(matches!(running.into_recording(), Err(CaptureError::BufferUnavailable)));

    let mut session = AudioRecordingBuilder::<i16>::start(config(16000, 2), SampleFormat::I16);
    session.push_samples(&[3, 4]);
    session.stop_stream();
    session.push_samples(&[5, 6]);
    let rec = session.into_recording().ok().unwrap();
    assert_eq!(rec.audio_data, vec![3, 4]);
}

#[test]
fn poll_stops_when_mode_leaves_listening() {
    let vad = CaptureStrategy::SlidingVad { window_ms: 500 };
    let c = config(16000, 1);
    assert_eq!(poll_capture(TranscriptionMode::Processing, vad, 10, c, false), PollDecision::StopCapture);
    assert_eq!(poll_capture(TranscriptionMode::Inactive, vad, 10, c, false), PollDecision::StopCapture);
    assert_eq!(poll_capture(TranscriptionMode::Listening, vad, 10, c, false), PollDecision::KeepListening);
    assert_eq!(poll_capture(TranscriptionMode::Listening, vad, 10, c, true), PollDecision::StopCapture);
}

#[test]
fn fixed_duration_stops_at_exact_length() {
    let fixed = CaptureStrategy::FixedDuration { duration_ms: 1000 };
    let c = config(16000, 2);
    assert_eq!(poll_capture(TranscriptionMode::Listening, fixed, 31999, c, false), PollDecision::KeepListening);
    assert_eq!(poll_capture(TranscriptionMode::Listening, fixed, 32000, c, false), PollDecision::StopCapture);
}

fn recording(samples: Vec<i32>, rate: u32) -> AudioRecording<i32> {
    AudioRecording { audio_data: samples, config: config(rate, 1), sample_format: SampleFormat::I32 }
}

#[test]
fn resample_at_target_rate_is_identity() {
    let rec = recording(vec![5, -3, 7], TARGET_SAMPLE_RATE);
    let out = resample_audio(rec, TARGET_SAMPLE_RATE, |_v: Vec<i32>, _a: u32, _b: u32| -> Vec<i32> {
        panic!("no conversion expected")
    })
    .ok()
    .unwrap();
    assert_eq!(out.audio_data, vec![5, -3, 7]);
    assert_eq!(out.config.sample_rate, 16000);
}

#[test]
fn resample_converts_and_records_target_rate() {
    let rec = recording((0..12).collect(), 48000);
    let out = resample_audio(rec, TARGET_SAMPLE_RATE, |v: Vec<i32>, from: u32, to: u32| -> Vec<i32> {
        let step = (from / to) as usize;
        v.into_iter().step_by(step).collect()
    })
    .ok()
    .unwrap();
    assert_eq!(out.audio_data, vec![0, 3, 6, 9]);
    assert_eq!(out.config, config(16000, 1));
    assert_eq!(out.sample_format, SampleFormat::I32);
}

#[test]
fn resample_from_zero_rate_fails() {
    let rec = recording(vec![1, 2], 0);
    let r = resample_audio(rec, TARGET_SAMPLE_RATE, |v: Vec<i32>, _a: u32, _b: u32| -> Vec<i32> { v });
    assert!(matches!(r, Err(ResampleError::ResamplerInitError)));
}

#[test]
fn silence_counts_as_speech_ended() {
    let silent = vec![0u32; 100];
    assert!(has_speech_ended(&silent, 1000, 0));
    assert!(has_speech_ended(&silent, 1000, 10));
    assert!(has_speech_ended(&silent, 1000, 99));
    assert!(!has_speech_ended(&silent, 1000, 100));
    assert!(!has_speech_ended(&silent, 1000, 250));
    assert!(!has_speech_ended(&Vec::new(), 16000, 0));
}

#[test]
fn quiet_tail_after_speech_ends_speech() {
    let speech_then_quiet = vec![10, 10, 10, 10, 0, 0];
    assert!(has_speech_ended(&speech_then_quiet, 1000, 2));
    let quiet_then_speech = vec![0, 0, 0, 0, 10, 10];
    assert!(!has_speech_ended(&quiet_then_speech, 1000, 2));
}

#[test]
fn speech_end_threshold_is_three_fifths() {
    // Whole mean 10, trailing mean 6: exactly at the threshold, not below it.
    let at = vec![12, 12, 12, 12, 12, 12, 12, 4, 6, 6];
    assert_eq!(at.iter().sum::<u32>(), 100);
    assert!(!has_speech_ended(&at, 1000, 2));
    // Whole mean 9.9, trailing mean 5.5: below three fifths (5.94).
    let below = vec![12, 12, 12, 12, 12, 12, 12, 4, 5, 6];
    assert_eq!(below.iter().sum::<u32>(), 99);
    assert!(has_speech_ended(&below, 1000, 2));
}

#[test]
fn empty_window_decides_only_on_silence() {
    assert!(!has_speech_ended(&vec![3, 0, 0], 1000, 0));
    assert!(has_speech_ended(&vec![0, 0, 0], 1000, 0));
}

#[test]
fn stopped_session_always_hands_over_its_samples() {
    let mut empty = AudioRecordingBuilder::<u8>::start(config(8000, 1), SampleFormat::U8);
    empty.stop_stream();
    let rec = empty.into_recording().ok().unwrap();
    assert_eq!(rec.audio_data, Vec::<u8>::new());
    assert_eq!(rec.config, config(8000, 1));
}

#[test]
fn loud_sums_beyond_128_bit_products_compare_exactly() {
    // Sums near the top of u32 make the cross products exceed 2^64.
    let mut loud = vec![u32::MAX; 1000];
    loud.extend(vec![u32::MAX / 2; 10]);
    assert!(has_speech_ended(&loud, 1000, 10));
    let steady = vec![u32::MAX; 1010];
    assert!(!has_speech_ended(&steady, 1000, 10));
}
