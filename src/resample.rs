use vstd::prelude::*;
use crate::recording::AudioRecording;

verus! {

/// The sample rate that the speech recognizer expects.
pub const TARGET_SAMPLE_RATE: u32 = 16000;

/// Why a resampling could not be set up.
#[derive(Clone, Copy, Debug, PartialEq, Eq, Structural)]
pub enum ResampleError {
    /// The rate ratio cannot be represented: one of the rates is zero.
    ResamplerInitError,
}

/// Whether converting from `from` to `to` has a representable, positive ratio.
pub open spec fn ratio_supported(from: u32, to: u32) -> bool {
    from > 0 && to > 0
}

/// Converts `recording` to `target_rate`. Where the recording is already at
/// that rate it is handed back as it is, with no conversion. Otherwise
/// `convert` (the fixed-ratio sinc interpolation, given the samples, the
/// native rate and the target rate) produces the new samples, and the
/// recorded rate becomes `target_rate`; the channel count and sample format
/// stay.
pub fn resample_audio<T, F: FnOnce(Vec<T>, u32, u32) -> Vec<T>>(
    recording: AudioRecording<T>,
    target_rate: u32,
    convert: F,
) -> (r: Result<AudioRecording<T>, ResampleError>)
    requires
        forall|v: Vec<T>, a: u32, b: u32| convert.requires((v, a, b)),
    ensures
        recording.config.sample_rate == target_rate ==> r == Ok::<
            AudioRecording<T>,
            ResampleError,
        >(recording),
        recording.config.sample_rate != target_rate ==> (r.is_err() <==> !ratio_supported(
            recording.config.sample_rate,
            target_rate,
        )),
        r matches Err(e) ==> e == ResampleError::ResamplerInitError,
        recording.config.sample_rate != target_rate ==> (r matches Ok(out) ==> {
            &&& convert.ensures(
                (recording.audio_data, recording.config.sample_rate, target_rate),
                out.audio_data,
            )
            &&& out.config.sample_rate == target_rate
            &&& out.config.channels == recording.config.channels
            &&& out.sample_format == recording.sample_format
        }),
{
    let from = recording.config.sample_rate;
    if from == target_rate {
        return Ok(recording);
    }
    if from == 0 || target_rate == 0 {
        return Err(ResampleError::ResamplerInitError);
    }
    let mut config = recording.config;
    let sample_format = recording.sample_format;
    let audio_data = convert(recording.audio_data, from, target_rate);
    config.sample_rate = target_rate;
    Ok(AudioRecording { audio_data, config, sample_format })
}

} // verus!
