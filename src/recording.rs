use vstd::prelude::*;

verus! {

/// The format of the samples that an input device delivers.
#[derive(Clone, Copy, Debug, PartialEq, Eq, Structural)]
pub enum SampleFormat {
    I8,
    I16,
    I32,
    I64,
    U8,
    U16,
    U32,
    U64,
    F32,
    F64,
}

/// The stream configuration read from the input device at capture time.
#[derive(Clone, Copy, Debug, PartialEq, Eq, Structural)]
pub struct StreamConfig {
    /// Interleaved channels per frame.
    pub channels: u16,
    /// Frames per second.
    pub sample_rate: u32,
}

/// A finished capture: the samples, interleaved where there are several
/// channels, with the configuration that was active while they were taken.
pub struct AudioRecording<T> {
    pub audio_data: Vec<T>,
    pub config: StreamConfig,
    pub sample_format: SampleFormat,
}

impl<T> AudioRecording<T> {
    /// Number of samples held.
    pub fn len(&self) -> (r: usize)
        ensures
            r == self.audio_data@.len(),
    {
        self.audio_data.len()
    }
}

} // verus!
