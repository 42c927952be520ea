use derby_voice::mode::{EntryAction, ModeEvent, ModeMachine, TranscriptionMode};

#[test]
fn triggers_cycle_through_every_mode() {
    let mut m = ModeMachine::new();
    assert_eq!(m.mode(), TranscriptionMode::Inactive);
    assert_eq!(m.trigger(), EntryAction::StartListening);
    assert_eq!(m.mode(), TranscriptionMode::Listening);
    assert!(m.is_listening());
    assert_eq!(m.trigger(), EntryAction::StartProcessing);
    assert_eq!(m.mode(), TranscriptionMode::Processing);
    assert_eq!(m.trigger(), EntryAction::ShowIdle);
    assert_eq!(m.mode(), TranscriptionMode::Inactive);
}

#[test]
fn rapid_triggers_under_one_lock_skip_no_mode() {
    let machine = std::sync::Arc::new(std::sync::Mutex::new(ModeMachine::new()));
    let mut seen = Vec::new();
    for _ in 0..9 {
        let mut guard = machine.lock().unwrap();
        guard.trigger();
        seen.push(guard.mode());
    }
    let cycle = [TranscriptionMode::Listening, TranscriptionMode::Processing, TranscriptionMode::Inactive];
    for (i, m) in seen.iter().enumerate() {
        assert_eq!(*m, cycle[i % 3]);
    }
}

#[test]
fn cycle_may_return_to_listening() {
    let mut m = ModeMachine::with_cycle(TranscriptionMode::Listening).unwrap();
    assert_eq!(m.after_processing(), TranscriptionMode::Listening);
    m.trigger();
    m.trigger();
    assert_eq!(m.handle(ModeEvent::ProcessingFinished), EntryAction::StartListening);
    assert_eq!(m.mode(), TranscriptionMode::Listening);
    assert!(ModeMachine::with_cycle(TranscriptionMode::Processing).is_none());
}

#[test]
fn processing_finished_is_ignored_outside_processing() {
    let mut m = ModeMachine::new();
    assert_eq!(m.handle(ModeEvent::ProcessingFinished), EntryAction::Nothing);
    assert_eq!(m.mode(), TranscriptionMode::Inactive);
    assert_eq!(m.handle(ModeEvent::TrayClick), EntryAction::StartListening);
    assert_eq!(m.handle(ModeEvent::ProcessingFinished), EntryAction::Nothing);
    assert_eq!(m.mode(), TranscriptionMode::Listening);
}

#[test]
fn capture_end_moves_listening_to_processing_only() {
    let mut m = ModeMachine::new();
    assert_eq!(m.handle(ModeEvent::CaptureEnded), EntryAction::Nothing);
    assert_eq!(m.mode(), TranscriptionMode::Inactive);
    m.trigger();
    assert_eq!(m.handle(ModeEvent::CaptureEnded), EntryAction::StartProcessing);
    assert_eq!(m.mode(), TranscriptionMode::Processing);
    assert_eq!(m.handle(ModeEvent::CaptureEnded), EntryAction::Nothing);
    assert_eq!(m.handle(ModeEvent::ProcessingFinished), EntryAction::ShowIdle);
    assert_eq!(m.mode(), TranscriptionMode::Inactive);
}
