//! The pipeline's reactions to the hotkey: which side effects run, and in
//! what order, when a recording starts, stops or is cancelled.

use vstd::prelude::*;
use vstd::string::StrSliceExecFns;
use crate::ui_state::TrayIconState;

verus! {

/// One side effect performed by the caller, in the order given.
#[derive(Debug, Clone, Copy, PartialEq, Eq, Structural)]
pub enum Step {
    SetTray(TrayIconState),
    ShowRecordingOverlay,
    ShowTranscribingOverlay,
    HideOverlay,
    PlayStartCue,
    /// Play the start cue after the stream has had time to warm up.
    PlayStartCueDelayed,
    PlayStopCue,
    /// Start the recording (`AudioRecordingManager::try_start_recording`).
    StartRecording,
    /// Begin loading the model in the background.
    InitiateModelLoad,
    /// Stop the recording, transcribe what it captured, and report.
    StopAndTranscribe,
    /// Discard the recording in flight.
    CancelRecording,
    /// Hand the transcript to the text-injection collaborator.
    Paste,
}

/// Steps of `start`: recording state shown; with an always-open stream the
/// cue plays before recording starts, otherwise recording (which opens the
/// stream) comes first; then a model load if none is loaded.
pub open spec fn start_steps_spec(always_on: bool, model_loaded: bool) -> Seq<Step> {
    let head = seq![Step::SetTray(TrayIconState::Recording), Step::ShowRecordingOverlay];
    let body = if always_on {
        seq![Step::PlayStartCue, Step::StartRecording]
    } else {
        seq![Step::StartRecording]
    };
    let tail = if model_loaded { Seq::empty() } else { seq![Step::InitiateModelLoad] };
    head + body + tail
}

pub fn start_steps(always_on: bool, model_loaded: bool) -> (r: Vec<Step>)
    ensures
        r@ == start_steps_spec(always_on, model_loaded),
{
    let mut v: Vec<Step> = Vec::new();
    v.push(Step::SetTray(TrayIconState::Recording));
    v.push(Step::ShowRecordingOverlay);
    if always_on {
        v.push(Step::PlayStartCue);
    }
    v.push(Step::StartRecording);
    if !model_loaded {
        v.push(Step::InitiateModelLoad);
    }
    proof {
        assert(v@ =~= start_steps_spec(always_on, model_loaded));
    }
    v
}

/// Steps once `StartRecording` has answered: on demand, a started
/// recording gets its delayed cue.
pub fn after_start_steps(always_on: bool, started: bool) -> (r: Vec<Step>)
    ensures
        r@ == (if !always_on && started { seq![Step::PlayStartCueDelayed] } else { Seq::empty() }),
{
    let mut v: Vec<Step> = Vec::new();
    if !always_on && started {
        v.push(Step::PlayStartCueDelayed);
    }
    proof {
        assert(v@ =~= (if !always_on && started { seq![Step::PlayStartCueDelayed] } else { Seq::<Step>::empty() }));
    }
    v
}

pub open spec fn stop_steps_spec() -> Seq<Step> {
    seq![
        Step::SetTray(TrayIconState::Transcribing),
        Step::ShowTranscribingOverlay,
        Step::PlayStopCue,
        Step::StopAndTranscribe,
    ]
}

/// Steps of `stop`: transcribing state shown, stop cue, then the stop and
/// the decode, which run off the interface thread.
pub fn stop_steps() -> (r: Vec<Step>)
    ensures
        r@ == stop_steps_spec(),
{
    let v = vec![
        Step::SetTray(TrayIconState::Transcribing),
        Step::ShowTranscribingOverlay,
        Step::PlayStopCue,
        Step::StopAndTranscribe,
    ];
    proof {
        assert(v@ =~= stop_steps_spec());
    }
    v
}

/// Steps once the decode has answered: `transcript` is `None` when nothing
/// was recorded for this binding or the decode failed. A non-empty
/// transcript is pasted; the interface returns to idle in every case.
pub fn finish_steps(transcript: Option<&str>) -> (r: Vec<Step>)
    ensures
        r@ == (match transcript {
            Some(t) if t@.len() > 0 => seq![Step::Paste, Step::HideOverlay, Step::SetTray(TrayIconState::Idle)],
            _ => seq![Step::HideOverlay, Step::SetTray(TrayIconState::Idle)],
        }),
{
    let paste = match transcript {
        Some(t) => t.unicode_len() > 0,
        None => false,
    };
    let mut v: Vec<Step> = Vec::new();
    if paste {
        v.push(Step::Paste);
    }
    v.push(Step::HideOverlay);
    v.push(Step::SetTray(TrayIconState::Idle));
    proof {
        match transcript {
            Some(t) => if t@.len() > 0 {
                assert(v@ =~= seq![Step::Paste, Step::HideOverlay, Step::SetTray(TrayIconState::Idle)]);
            } else {
                assert(v@ =~= seq![Step::HideOverlay, Step::SetTray(TrayIconState::Idle)]);
            },
            None => {
                assert(v@ =~= seq![Step::HideOverlay, Step::SetTray(TrayIconState::Idle)]);
            },
        }
    }
    v
}

/// Steps of `cancel`: the recording in flight is discarded and the
/// interface returns to idle.
pub fn cancel_steps() -> (r: Vec<Step>)
    ensures
        r@ == seq![Step::CancelRecording, Step::HideOverlay, Step::SetTray(TrayIconState::Idle)],
{
    let v = vec![Step::CancelRecording, Step::HideOverlay, Step::SetTray(TrayIconState::Idle)];
    proof {
        assert(v@ =~= seq![Step::CancelRecording, Step::HideOverlay, Step::SetTray(TrayIconState::Idle)]);
    }
    v
}

} // verus!
