//! Small state values shown by the user interface.

use vstd::prelude::*;

verus! {

/// The cue played at either end of a recording.
#[derive(Debug, Clone, Copy, PartialEq, Eq, Structural)]
pub enum SoundType {
    Start,
    Stop,
}

/// The tray icon's state.
#[derive(Debug, Clone, Copy, PartialEq, Eq, Structural)]
pub enum TrayIconState {
    Idle,
    Recording,
    Transcribing,
}

/// Whether a model is loaded, and which.
#[derive(Debug, Clone)]
pub struct ModelLoadStatus {
    pub is_loaded: bool,
    pub current_model: Option<String>,
}

/// One saved transcription.
#[derive(Debug, Clone)]
pub struct HistoryEntry {
    pub id: i64,
    pub file_name: String,
    pub timestamp: i64,
    pub saved: bool,
    pub title: String,
    pub transcription_text: String,
    pub post_processed_text: Option<String>,
    pub post_process_prompt: Option<String>,
}

/// The answer to a request to change a shortcut.
#[derive(Debug, Clone)]
pub struct BindingResponse {
    pub success: bool,
    pub binding: Option<crate::settings::ShortcutBinding>,
    pub error: Option<String>,
}

/// Whether the lid is closed with an external display attached. Only macOS
/// reports this; everywhere else the answer is no.
pub fn is_clamshell() -> (r: Result<bool, String>)
    ensures
        r == Ok::<bool, String>(false),
{
    Ok(false)
}

} // verus!
