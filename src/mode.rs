use vstd::prelude::*;

verus! {

/// The recording mode of the transcription pipeline.
#[derive(Clone, Copy, Debug, PartialEq, Eq, Structural)]
pub enum TranscriptionMode {
    /// Idle: not listening, not transcribing.
    Inactive,
    /// Capture is active.
    Listening,
    /// Capture has stopped; decoding and the response pipeline run.
    Processing,
}

/// An external event that may move the mode machine.
#[derive(Clone, Copy, Debug, PartialEq, Eq, Structural)]
pub enum ModeEvent {
    /// The global hotkey was pressed.
    Hotkey,
    /// The tray icon was clicked.
    TrayClick,
    /// The capture worker ended the capture on its own (its fixed duration
    /// ran out, or the speech-end test fired).
    CaptureEnded,
    /// The processing worker reports that its work is done.
    ProcessingFinished,
}

/// The side effect that entering a mode asks the UI layer to perform.
#[derive(Clone, Copy, Debug, PartialEq, Eq, Structural)]
pub enum EntryAction {
    /// Entered Inactive: show the default icon.
    ShowIdle,
    /// Entered Listening: show the listening icon and spawn the capture worker.
    StartListening,
    /// Entered Processing: the capture worker stops and the result surface opens.
    StartProcessing,
    /// The event caused no transition.
    Nothing,
}

/// The mode that follows `m` on a trigger, where `after_processing` is the
/// mode that the configured cycle returns to from Processing.
pub open spec fn next_mode(m: TranscriptionMode, after_processing: TranscriptionMode) -> TranscriptionMode {
    match m {
        TranscriptionMode::Inactive => TranscriptionMode::Listening,
        TranscriptionMode::Listening => TranscriptionMode::Processing,
        TranscriptionMode::Processing => after_processing,
    }
}

/// The mode after `event` arrives in mode `m`: the hotkey and the tray click
/// trigger a step of the cycle; the end of a capture triggers one only in
/// Listening, and the end of processing only in Processing; each is ignored
/// elsewhere.
pub open spec fn mode_after(
    m: TranscriptionMode,
    event: ModeEvent,
    after_processing: TranscriptionMode,
) -> TranscriptionMode {
    match event {
        ModeEvent::CaptureEnded => if m == TranscriptionMode::Listening {
            TranscriptionMode::Processing
        } else {
            m
        },
        ModeEvent::ProcessingFinished => if m == TranscriptionMode::Processing {
            after_processing
        } else {
            m
        },
        _ => next_mode(m, after_processing),
    }
}

/// The entry action of mode `m`.
pub open spec fn entry_action_of(m: TranscriptionMode) -> EntryAction {
    match m {
        TranscriptionMode::Inactive => EntryAction::ShowIdle,
        TranscriptionMode::Listening => EntryAction::StartListening,
        TranscriptionMode::Processing => EntryAction::StartProcessing,
    }
}

/// The mode reached from `m` after `n` triggers.
pub open spec fn mode_after_triggers(
    m: TranscriptionMode,
    n: nat,
    after_processing: TranscriptionMode,
) -> TranscriptionMode
    decreases n,
{
    if n == 0 {
        m
    } else {
        next_mode(mode_after_triggers(m, (n - 1) as nat, after_processing), after_processing)
    }
}

/// The single authoritative copy of the recording mode. The caller keeps it
/// behind one lock, reads and changes it under that lock, and performs the
/// returned entry action after releasing the lock.
pub struct ModeMachine {
    mode: TranscriptionMode,
    after_processing: TranscriptionMode,
}

impl ModeMachine {
    /// Whether the configured cycle is a valid one: from Processing it goes
    /// back to Inactive or to Listening.
    pub open spec fn wf(&self) -> bool {
        self.spec_after_processing() != TranscriptionMode::Processing
    }

    pub closed spec fn spec_mode(&self) -> TranscriptionMode {
        self.mode
    }

    pub closed spec fn spec_after_processing(&self) -> TranscriptionMode {
        self.after_processing
    }

    /// A machine in Inactive whose cycle returns from Processing to Inactive.
    pub fn new() -> (r: ModeMachine)
        ensures
            r.wf(),
            r.spec_mode() == TranscriptionMode::Inactive,
            r.spec_after_processing() == TranscriptionMode::Inactive,
    {
        ModeMachine { mode: TranscriptionMode::Inactive, after_processing: TranscriptionMode::Inactive }
    }

    /// A machine in Inactive whose cycle returns from Processing to
    /// `after_processing`, which must be Inactive or Listening.
    pub fn with_cycle(after_processing: TranscriptionMode) -> (r: Option<ModeMachine>)
        ensures
            after_processing == TranscriptionMode::Processing <==> r.is_none(),
            r matches Some(m) ==> m.wf() && m.spec_mode() == TranscriptionMode::Inactive
                && m.spec_after_processing() == after_processing,
    {
        match after_processing {
            TranscriptionMode::Processing => None,
            _ => Some(ModeMachine { mode: TranscriptionMode::Inactive, after_processing }),
        }
    }

    /// The current mode.
    pub fn mode(&self) -> (r: TranscriptionMode)
        ensures
            r == self.spec_mode(),
    {
        self.mode
    }

    /// The mode that the cycle returns to from Processing.
    pub fn after_processing(&self) -> (r: TranscriptionMode)
        ensures
            r == self.spec_after_processing(),
    {
        self.after_processing
    }

    /// Whether a capture worker should keep recording.
    pub fn is_listening(&self) -> (r: bool)
        ensures
            r == (self.spec_mode() == TranscriptionMode::Listening),
    {
        match self.mode {
            TranscriptionMode::Listening => true,
            _ => false,
        }
    }

    /// Applies one external event, and returns the entry action of the mode
    /// entered, or `Nothing` where the mode did not change.
    pub fn handle(&mut self, event: ModeEvent) -> (r: EntryAction)
        requires
            old(self).wf(),
        ensures
            final(self).wf(),
            final(self).spec_after_processing() == old(self).spec_after_processing(),
            final(self).spec_mode() == mode_after(
                old(self).spec_mode(),
                event,
                old(self).spec_after_processing(),
            ),
            r == if final(self).spec_mode() == old(self).spec_mode() {
                EntryAction::Nothing
            } else {
                entry_action_of(final(self).spec_mode())
            },
    {
        let next = match event {
            ModeEvent::CaptureEnded => match self.mode {
                TranscriptionMode::Listening => TranscriptionMode::Processing,
                _ => self.mode,
            },
            ModeEvent::ProcessingFinished => match self.mode {
                TranscriptionMode::Processing => self.after_processing,
                _ => self.mode,
            },
            _ => match self.mode {
                TranscriptionMode::Inactive => TranscriptionMode::Listening,
                TranscriptionMode::Listening => TranscriptionMode::Processing,
                TranscriptionMode::Processing => self.after_processing,
            },
        };
        if next == self.mode {
            EntryAction::Nothing
        } else {
            self.mode = next;
            match next {
                TranscriptionMode::Inactive => EntryAction::ShowIdle,
                TranscriptionMode::Listening => EntryAction::StartListening,
                TranscriptionMode::Processing => EntryAction::StartProcessing,
            }
        }
    }

    /// One trigger (hotkey or tray click): steps the cycle once.
    pub fn trigger(&mut self) -> (r: EntryAction)
        requires
            old(self).wf(),
        ensures
            final(self).wf(),
            final(self).spec_after_processing() == old(self).spec_after_processing(),
            final(self).spec_mode() == next_mode(old(self).spec_mode(), old(self).spec_after_processing()),
            final(self).spec_mode() != old(self).spec_mode(),
            r == entry_action_of(final(self).spec_mode()),
    {
        self.handle(ModeEvent::Hotkey)
    }
}

/// Every trigger moves the machine to another mode: no trigger is lost and
/// none leaves the mode as it was.
pub proof fn lemma_trigger_always_moves(m: TranscriptionMode, after_processing: TranscriptionMode)
    requires
        after_processing != TranscriptionMode::Processing,
    ensures
        next_mode(m, after_processing) != m,
{
}

/// Triggers applied one after another, each under the mode lock, pass
/// through exactly the modes of the cycle: where each mode of `modes` is the
/// one a trigger reaches from the mode before it, the mode after `i`
/// triggers is the `i`-th step of the cycle from the first mode, and no two
/// consecutive modes are equal, so no step is skipped or applied twice.
pub proof fn lemma_trigger_sequence(modes: Seq<TranscriptionMode>, after_processing: TranscriptionMode)
    requires
        after_processing != TranscriptionMode::Processing,
        modes.len() > 0,
        forall|i: int|
            0 <= i < modes.len() - 1 ==> #[trigger] modes[i + 1] == next_mode(
                modes[i],
                after_processing,
            ),
    ensures
        forall|i: int|
            0 <= i < modes.len() ==> #[trigger] modes[i] == mode_after_triggers(
                modes[0],
                i as nat,
                after_processing,
            ),
        forall|i: int| 0 <= i < modes.len() - 1 ==> #[trigger] modes[i + 1] != modes[i],
    decreases modes.len(),
{
    if modes.len() > 1 {
        let init = modes.drop_last();
        assert forall|i: int| 0 <= i < init.len() - 1 implies #[trigger] init[i + 1] == next_mode(
            init[i],
            after_processing,
        ) by {
            assert(modes[i + 1] == next_mode(modes[i], after_processing));
        }
        lemma_trigger_sequence(init, after_processing);
        assert forall|i: int| 0 <= i < modes.len() implies #[trigger] modes[i] == mode_after_triggers(
            modes[0],
            i as nat,
            after_processing,
        ) by {
            if i < modes.len() - 1 {
                assert(init[i] == modes[i]);
            } else {
                assert(init[i - 1] == modes[i - 1]);
                assert(modes[(i - 1) + 1] == next_mode(modes[i - 1], after_processing));
            }
        }
    }
    assert forall|i: int| 0 <= i < modes.len() - 1 implies #[trigger] modes[i + 1] != modes[i] by {
        lemma_trigger_always_moves(modes[i], after_processing);
    }
}

/// From Inactive, triggers visit Listening, then Processing, then the mode
/// that the cycle returns to; with the cycle back to Inactive, every third
/// trigger lands in Inactive again.
pub proof fn lemma_trigger_cycle(after_processing: TranscriptionMode, k: nat)
    requires
        after_processing != TranscriptionMode::Processing,
    ensures
        mode_after_triggers(TranscriptionMode::Inactive, 1, after_processing)
            == TranscriptionMode::Listening,
        mode_after_triggers(TranscriptionMode::Inactive, 2, after_processing)
            == TranscriptionMode::Processing,
        mode_after_triggers(TranscriptionMode::Inactive, 3, after_processing) == after_processing,
        after_processing == TranscriptionMode::Inactive ==> mode_after_triggers(
            TranscriptionMode::Inactive,
            3 * k,
            after_processing,
        ) == TranscriptionMode::Inactive,
    decreases k,
{
    reveal_with_fuel(mode_after_triggers, 4);
    if k > 0 && after_processing == TranscriptionMode::Inactive {
        lemma_trigger_cycle(after_processing, (k - 1) as nat);
        let j = (3 * (k - 1)) as nat;
        assert(3 * k == j + 3);
        assert(mode_after_triggers(TranscriptionMode::Inactive, j + 1, after_processing)
            == TranscriptionMode::Listening);
        assert(mode_after_triggers(TranscriptionMode::Inactive, j + 2, after_processing)
            == TranscriptionMode::Processing);
        assert(mode_after_triggers(TranscriptionMode::Inactive, j + 3, after_processing)
            == TranscriptionMode::Inactive);
    }
}

} // verus!
