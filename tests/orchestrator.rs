use handy::orchestrator::{after_start_steps, cancel_steps, finish_steps, start_steps, stop_steps, Step};
use handy::ui_state::TrayIconState;

#[test]
fn always_on_plays_the_cue_first() {
    assert_eq!(
        start_steps(true, true),
        vec![
            Step::SetTray(TrayIconState::Recording),
            Step::ShowRecordingOverlay,
            Step::PlayStartCue,
            Step::StartRecording
        ]
    );
    assert!(after_start_steps(true, true).is_empty());
}

#[test]
fn on_demand_starts_first_and_loads_the_model() {
    assert_eq!(
        start_steps(false, false),
        vec![
            Step::SetTray(TrayIconState::Recording),
            Step::ShowRecordingOverlay,
            Step::StartRecording,
            Step::InitiateModelLoad
        ]
    );
    assert_eq!(after_start_steps(false, true), vec![Step::PlayStartCueDelayed]);
    assert!(after_start_steps(false, false).is_empty());
}

#[test]
fn stop_and_finish() {
    assert_eq!(stop_steps().last(), Some(&Step::StopAndTranscribe));
    assert_eq!(finish_steps(Some("hi"))[0], Step::Paste);
    assert_eq!(finish_steps(Some("")), vec![Step::HideOverlay, Step::SetTray(TrayIconState::Idle)]);
    assert_eq!(finish_steps(None).len(), 2);
    assert_eq!(cancel_steps()[0], Step::CancelRecording);
}
