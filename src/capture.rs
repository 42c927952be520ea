use vstd::prelude::*;
use crate::mode::TranscriptionMode;
use crate::recording::{AudioRecording, SampleFormat, StreamConfig};

verus! {

/// How often, in milliseconds, a capture worker looks at the mode.
pub const POLL_INTERVAL_MS: u64 = 200;

/// Why a capture could not start or end.
#[derive(Clone, Copy, Debug, PartialEq, Eq, Structural)]
pub enum CaptureError {
    /// No input device, or its configuration could not be negotiated.
    DeviceUnavailable,
    /// The sample sink is still referenced by a live stream.
    BufferUnavailable,
}

/// The live side of a capture session: the sink that the device callback
/// appends to, whether the input stream is still running, and the
/// configuration read from the device.
pub struct AudioRecordingBuilder<T> {
    audio_data: Vec<T>,
    input_stream_active: bool,
    config: StreamConfig,
    sample_format: SampleFormat,
}

impl<T: Copy> AudioRecordingBuilder<T> {
    pub closed spec fn samples(&self) -> Seq<T> {
        self.audio_data@
    }

    pub closed spec fn streaming(&self) -> bool {
        self.input_stream_active
    }

    pub closed spec fn spec_config(&self) -> StreamConfig {
        self.config
    }

    pub closed spec fn spec_sample_format(&self) -> SampleFormat {
        self.sample_format
    }

    /// A session whose stream has just started, with an empty sink.
    pub fn start(config: StreamConfig, sample_format: SampleFormat) -> (r: Self)
        ensures
            r.samples() == Seq::<T>::empty(),
            r.streaming(),
            r.spec_config() == config,
            r.spec_sample_format() == sample_format,
    {
        AudioRecordingBuilder { audio_data: Vec::new(), input_stream_active: true, config, sample_format }
    }

    /// The device callback: appends every sample of `data`, in order, while
    /// the stream runs; once it is stopped the sink no longer changes.
    pub fn push_samples(&mut self, data: &[T])
        ensures
            final(self).streaming() == old(self).streaming(),
            final(self).spec_config() == old(self).spec_config(),
            final(self).spec_sample_format() == old(self).spec_sample_format(),
            old(self).streaming() ==> final(self).samples() == old(self).samples() + data@,
            !old(self).streaming() ==> final(self).samples() == old(self).samples(),
    {
        if self.input_stream_active {
            let n = data.len();
            let mut i: usize = 0;
            while i < n
                invariant
                    n == data@.len(),
                    0 <= i <= n,
                    self.input_stream_active == old(self).input_stream_active,
                    self.config == old(self).config,
                    self.sample_format == old(self).sample_format,
                    self.audio_data@ == old(self).audio_data@ + data@.take(i as int),
                decreases n - i,
            {
                self.audio_data.push(data[i]);
                i = i + 1;
                proof {
                    assert(data@.take(i as int) =~= data@.take(i - 1) + seq![data@[i - 1]]);
                }
            }
            proof {
                assert(data@.take(n as int) =~= data@);
            }
        }
    }

    /// Whether the input stream still runs.
    pub fn is_streaming(&self) -> (r: bool)
        ensures
            r == self.streaming(),
    {
        self.input_stream_active
    }

    /// Number of samples in the sink.
    pub fn captured_len(&self) -> (r: usize)
        ensures
            r == self.samples().len(),
    {
        self.audio_data.len()
    }

    /// A copy of the samples captured so far.
    pub fn snapshot(&self) -> (r: Vec<T>)
        ensures
            r@ == self.samples(),
    {
        let n = self.audio_data.len();
        let mut r: Vec<T> = Vec::new();
        let mut i: usize = 0;
        while i < n
            invariant
                n == self.audio_data@.len(),
                0 <= i <= n,
                r@ == self.audio_data@.take(i as int),
            decreases n - i,
        {
            r.push(self.audio_data[i]);
            i = i + 1;
            proof {
                assert(r@ =~= self.audio_data@.take(i as int));
            }
        }
        proof {
            assert(self.audio_data@.take(n as int) =~= self.audio_data@);
        }
        r
    }

    /// The configuration read from the device.
    pub fn config(&self) -> (r: StreamConfig)
        ensures
            r == self.spec_config(),
    {
        self.config
    }

    /// Stops the input stream; the sink keeps what it holds.
    pub fn stop_stream(&mut self)
        ensures
            !final(self).streaming(),
            final(self).samples() == old(self).samples(),
            final(self).spec_config() == old(self).spec_config(),
            final(self).spec_sample_format() == old(self).spec_sample_format(),
    {
        self.input_stream_active = false;
    }

    /// Takes the samples out of the sink. This fails while the stream still
    /// runs, since the stream then still refers to the sink.
    pub fn into_recording(self) -> (r: Result<AudioRecording<T>, CaptureError>)
        ensures
            self.streaming() <==> r == Err::<AudioRecording<T>, CaptureError>(
                CaptureError::BufferUnavailable,
            ),
            !self.streaming() ==> r.is_ok(),
            r matches Ok(rec) ==> rec.audio_data@ == self.samples() && rec.config
                == self.spec_config() && rec.sample_format == self.spec_sample_format(),
    {
        if self.input_stream_active {
            Err(CaptureError::BufferUnavailable)
        } else {
            Ok(AudioRecording {
                audio_data: self.audio_data,
                config: self.config,
                sample_format: self.sample_format,
            })
        }
    }

    /// Ends the capture: stops the stream and takes the samples, exactly as
    /// they were pushed.
    pub fn stop_capture(self) -> (r: AudioRecording<T>)
        ensures
            r.audio_data@ == self.samples(),
            r.config == self.spec_config(),
            r.sample_format == self.spec_sample_format(),
    {
        let mut session = self;
        session.stop_stream();
        AudioRecording {
            audio_data: session.audio_data,
            config: session.config,
            sample_format: session.sample_format,
        }
    }
}

/// The batches of `batches` joined in order.
pub open spec fn concat_batches<T>(batches: Seq<Seq<T>>) -> Seq<T>
    decreases batches.len(),
{
    if batches.len() == 0 {
        Seq::<T>::empty()
    } else {
        concat_batches(batches.drop_last()) + batches.last()
    }
}

/// A capture keeps every pushed batch, in push order: where `sinks[0]` is
/// the empty sink of a started session and each later entry is the sink after
/// `push_samples` of the next batch on the running stream, the last sink, and
/// so the samples of the recording that `stop_capture` returns, is exactly
/// the concatenation of the batches.
pub proof fn lemma_capture_concatenation<T>(sinks: Seq<Seq<T>>, batches: Seq<Seq<T>>)
    requires
        sinks.len() == batches.len() + 1,
        sinks[0] == Seq::<T>::empty(),
        forall|i: int| 0 <= i < batches.len() ==> #[trigger] sinks[i + 1] == sinks[i] + batches[i],
    ensures
        sinks.last() == concat_batches(batches),
    decreases batches.len(),
{
    if batches.len() == 0 {
    } else {
        let k = batches.len() - 1;
        let earlier = sinks.drop_last();
        let first = batches.drop_last();
        assert forall|i: int| 0 <= i < first.len() implies #[trigger] earlier[i + 1] == earlier[i]
            + first[i] by {
            assert(sinks[i + 1] == sinks[i] + batches[i]);
        }
        lemma_capture_concatenation(earlier, first);
        assert(sinks[k + 1] == sinks[k] + batches[k]);
    }
}

/// When a capture worker stops recording on its own, besides the mode
/// leaving Listening.
#[derive(Clone, Copy, Debug, PartialEq, Eq, Structural)]
pub enum CaptureStrategy {
    /// Stop once this many milliseconds of audio are captured.
    FixedDuration { duration_ms: u32 },
    /// Stop once the speech-end test over the trailing window says so.
    SlidingVad { window_ms: u32 },
}

/// What a capture worker does after one look at the mode.
#[derive(Clone, Copy, Debug, PartialEq, Eq, Structural)]
pub enum PollDecision {
    KeepListening,
    StopCapture,
}

/// `captured` interleaved samples cover at least `duration_ms` of audio
/// under `config`.
pub open spec fn duration_reached(captured: nat, config: StreamConfig, duration_ms: u32) -> bool {
    captured * 1000 >= duration_ms as nat * config.sample_rate as nat * config.channels as nat
}

/// The decision of one poll of the capture loop: stop when the mode has left
/// Listening, or when the strategy's own end is reached (`speech_ended` is the
/// speech-end test's verdict on the samples so far).
pub open spec fn poll_stops(
    mode: TranscriptionMode,
    strategy: CaptureStrategy,
    captured: nat,
    config: StreamConfig,
    speech_ended: bool,
) -> bool {
    mode != TranscriptionMode::Listening || match strategy {
        CaptureStrategy::FixedDuration { duration_ms } => duration_reached(captured, config, duration_ms),
        CaptureStrategy::SlidingVad { .. } => speech_ended,
    }
}

/// One poll of the capture loop.
pub fn poll_capture(
    mode: TranscriptionMode,
    strategy: CaptureStrategy,
    captured: usize,
    config: StreamConfig,
    speech_ended: bool,
) -> (r: PollDecision)
    ensures
        r == if poll_stops(mode, strategy, captured as nat, config, speech_ended) {
            PollDecision::StopCapture
        } else {
            PollDecision::KeepListening
        },
{
    let stop = match mode {
        TranscriptionMode::Listening => match strategy {
            CaptureStrategy::FixedDuration { duration_ms } => {
                let have = captured as u128 * 1000;
                proof {
                    assert(duration_ms as nat * config.sample_rate as nat <= 0xffff_ffff * 0xffff_ffffnat)
                        by (nonlinear_arith)
                        requires
                            duration_ms <= 0xffff_ffffu32,
                            config.sample_rate <= 0xffff_ffffu32,
                    ;
                    assert(duration_ms as nat * config.sample_rate as nat * config.channels as nat
                        <= 0xffff_ffff * 0xffff_ffffnat * 0xffff) by (nonlinear_arith)
                        requires
                            duration_ms as nat * config.sample_rate as nat <= 0xffff_ffff
                                * 0xffff_ffffnat,
                            config.channels <= 0xffffu16,
                    ;
                }
                let need = duration_ms as u128 * config.sample_rate as u128 * config.channels as u128;
                have >= need
            },
            CaptureStrategy::SlidingVad { .. } => speech_ended,
        },
        _ => true,
    };
    if stop {
        PollDecision::StopCapture
    } else {
        PollDecision::KeepListening
    }
}

} // verus!
