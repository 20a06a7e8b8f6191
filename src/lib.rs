//! Core of a push-to-talk dictation engine: re-framing of captured audio,
//! voice-activity smoothing, the recorder and transcription state machines,
//! the pipeline's reactions to the hotkey, and the word-correction pass
//! applied to transcripts.
//!
//! Sample values are generic: the numeric work on them (resampling, the
//! speech classifier, the spectrum meter) is done by the caller, which hands
//! the results back to the state machines here.

pub mod console;
pub mod device_config;
pub mod framing;
pub mod injection;
pub mod orchestrator;
pub mod recorder;
pub mod settings;
pub mod shortcut;
pub mod text;
pub mod transcription;
pub mod ui_state;
pub mod vad;
