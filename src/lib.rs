//! Voice capture to transcript pipeline: a recording-mode state machine, a
//! sample sink fed by the audio callback, the speech-end decision, the
//! resampling step, the decode input and transcript assembly, and an
//! incremental demuxer for streamed JSON responses.

pub mod mode;
pub mod demux;
pub mod recording;
pub mod capture;
pub mod resample;
pub mod transcribe;
pub mod vad;
pub mod integrity;
pub mod service;
