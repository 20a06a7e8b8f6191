//! User-facing settings enums and their derived quantities.

use vstd::prelude::*;
use vstd::string::StringExecFns;

verus! {

/// Verbosity chosen for the application log.
#[derive(Debug, Clone, Copy, PartialEq, Eq, Structural)]
pub enum LogLevel {
    Trace,
    Debug,
    Info,
    Warn,
    Error,
}

/// When the loaded inference model is dropped after the last transcription.
#[derive(Debug, Clone, Copy, PartialEq, Eq, Structural)]
pub enum ModelUnloadTimeout {
    Never,
    Immediately,
    Min2,
    Min5,
    Min10,
    Min15,
    Hour1,
    Sec5,
}

/// Minutes of idleness after which the model is dropped (`None`: never).
pub open spec fn timeout_minutes(t: ModelUnloadTimeout) -> Option<u64> {
    match t {
        ModelUnloadTimeout::Never => None,
        ModelUnloadTimeout::Immediately => Some(0),
        ModelUnloadTimeout::Min2 => Some(2),
        ModelUnloadTimeout::Min5 => Some(5),
        ModelUnloadTimeout::Min10 => Some(10),
        ModelUnloadTimeout::Min15 => Some(15),
        ModelUnloadTimeout::Hour1 => Some(60),
        ModelUnloadTimeout::Sec5 => Some(0),
    }
}

/// Seconds of idleness after which the model is dropped (`None`: never).
pub open spec fn timeout_seconds(t: ModelUnloadTimeout) -> Option<u64> {
    match t {
        ModelUnloadTimeout::Never => None,
        ModelUnloadTimeout::Immediately => Some(0),
        ModelUnloadTimeout::Sec5 => Some(5),
        _ => Some((timeout_minutes(t).unwrap() * 60) as u64),
    }
}

impl ModelUnloadTimeout {
    pub fn to_minutes(self) -> (r: Option<u64>)
        ensures
            r == timeout_minutes(self),
    {
        match self {
            ModelUnloadTimeout::Never => None,
            ModelUnloadTimeout::Immediately => Some(0),
            ModelUnloadTimeout::Min2 => Some(2),
            ModelUnloadTimeout::Min5 => Some(5),
            ModelUnloadTimeout::Min10 => Some(10),
            ModelUnloadTimeout::Min15 => Some(15),
            ModelUnloadTimeout::Hour1 => Some(60),
            ModelUnloadTimeout::Sec5 => Some(0),
        }
    }

    pub fn to_seconds(self) -> (r: Option<u64>)
        ensures
            r == timeout_seconds(self),
    {
        match self {
            ModelUnloadTimeout::Never => None,
            ModelUnloadTimeout::Immediately => Some(0),
            ModelUnloadTimeout::Sec5 => Some(5),
            _ => match self.to_minutes() {
                Some(m) => Some(m * 60),
                None => None,
            },
        }
    }
}

impl Default for ModelUnloadTimeout {
    fn default() -> (r: Self)
        ensures
            r == ModelUnloadTimeout::Never,
    {
        ModelUnloadTimeout::Never
    }
}

/// Sound set played at the start and the end of a recording.
#[derive(Debug, Clone, Copy, PartialEq, Eq, Structural)]
pub enum SoundTheme {
    Marimba,
    Pop,
    Custom,
}

pub open spec fn theme_name(t: SoundTheme) -> Seq<char> {
    match t {
        SoundTheme::Marimba => seq!['m', 'a', 'r', 'i', 'm', 'b', 'a'],
        SoundTheme::Pop => seq!['p', 'o', 'p'],
        SoundTheme::Custom => seq!['c', 'u', 's', 't', 'o', 'm'],
    }
}

pub open spec fn resources_prefix() -> Seq<char> {
    seq!['r', 'e', 's', 'o', 'u', 'r', 'c', 'e', 's', '/']
}

impl SoundTheme {
    pub fn as_str(&self) -> (r: &'static str)
        ensures
            r@ == theme_name(*self),
    {
        proof {
            reveal_strlit("marimba");
            reveal_strlit("pop");
            reveal_strlit("custom");
        }
        match self {
            SoundTheme::Marimba => "marimba",
            SoundTheme::Pop => "pop",
            SoundTheme::Custom => "custom",
        }
    }

    pub fn to_start_path(&self) -> (r: String)
        ensures
            r@ == resources_prefix() + theme_name(*self) + seq!['_', 's', 't', 'a', 'r', 't', '.', 'w', 'a', 'v'],
    {
        proof {
            reveal_strlit("resources/");
            reveal_strlit("_start.wav");
        }
        let mut s = String::from_str("resources/");
        s.append(self.as_str());
        s.append("_start.wav");
        s
    }

    pub fn to_stop_path(&self) -> (r: String)
        ensures
            r@ == resources_prefix() + theme_name(*self) + seq!['_', 's', 't', 'o', 'p', '.', 'w', 'a', 'v'],
    {
        proof {
            reveal_strlit("resources/");
            reveal_strlit("_stop.wav");
        }
        let mut s = String::from_str("resources/");
        s.append(self.as_str());
        s.append("_stop.wav");
        s
    }
}


/// Threshold of the app's log filter, from the most to the least verbose
/// beyond `Off`.
#[derive(Debug, Clone, Copy, PartialEq, Eq, Structural)]
pub enum LevelFilter {
    Off,
    Error,
    Warn,
    Info,
    Debug,
    Trace,
}

/// The filter for a numeric level: 0 is off, 1 to 5 go from errors only to
/// everything, and larger values mean everything.
pub fn level_filter_from_u8(value: u8) -> (r: LevelFilter)
    ensures
        r == (if value == 0 {
            LevelFilter::Off
        } else if value == 1 {
            LevelFilter::Error
        } else if value == 2 {
            LevelFilter::Warn
        } else if value == 3 {
            LevelFilter::Info
        } else if value == 4 {
            LevelFilter::Debug
        } else {
            LevelFilter::Trace
        }),
{
    match value {
        0 => LevelFilter::Off,
        1 => LevelFilter::Error,
        2 => LevelFilter::Warn,
        3 => LevelFilter::Info,
        4 => LevelFilter::Debug,
        _ => LevelFilter::Trace,
    }
}

impl LogLevel {
    /// The level stored by older settings files as a number from 1 to 5.
    pub fn from_number(value: u64) -> (r: Option<LogLevel>)
        ensures
            r == (if value == 1 {
                Some(LogLevel::Trace)
            } else if value == 2 {
                Some(LogLevel::Debug)
            } else if value == 3 {
                Some(LogLevel::Info)
            } else if value == 4 {
                Some(LogLevel::Warn)
            } else if value == 5 {
                Some(LogLevel::Error)
            } else {
                None
            }),
    {
        match value {
            1 => Some(LogLevel::Trace),
            2 => Some(LogLevel::Debug),
            3 => Some(LogLevel::Info),
            4 => Some(LogLevel::Warn),
            5 => Some(LogLevel::Error),
            _ => None,
        }
    }
}

/// A global shortcut and what it is bound to.
#[derive(Debug, Clone)]
pub struct ShortcutBinding {
    pub id: String,
    pub name: String,
    pub description: String,
    pub default_binding: String,
    pub current_binding: String,
}

/// A prompt for the optional post-processing of transcripts.
#[derive(Debug, Clone)]
pub struct LLMPrompt {
    pub id: String,
    pub name: String,
    pub prompt: String,
}

/// An endpoint for the optional post-processing of transcripts.
#[derive(Debug, Clone)]
pub struct PostProcessProvider {
    pub id: String,
    pub label: String,
    pub base_url: String,
    pub allow_base_url_edit: bool,
    pub models_endpoint: Option<String>,
}

/// Where the recording overlay is shown.
#[derive(Debug, Clone, Copy, PartialEq, Eq, Structural)]
pub enum OverlayPosition {
    /// No overlay.
    Hidden,
    Top,
    Bottom,
}

/// How a transcript is put into the focused application.
#[derive(Debug, Clone, Copy, PartialEq, Eq, Structural)]
pub enum PasteMethod {
    CtrlV,
    Direct,
    /// The transcript is not pasted.
    Disabled,
    ShiftInsert,
}

impl PasteMethod {
    /// Typing directly on Linux, the paste shortcut elsewhere.
    pub fn default_for(linux: bool) -> (r: PasteMethod)
        ensures
            r == (if linux { PasteMethod::Direct } else { PasteMethod::CtrlV }),
    {
        if linux {
            PasteMethod::Direct
        } else {
            PasteMethod::CtrlV
        }
    }
}

/// Whether pasting leaves the transcript on the clipboard.
#[derive(Debug, Clone, Copy, PartialEq, Eq, Structural)]
pub enum ClipboardHandling {
    DontModify,
    CopyToClipboard,
}

impl Default for ClipboardHandling {
    fn default() -> (r: Self)
        ensures
            r == ClipboardHandling::DontModify,
    {
        ClipboardHandling::DontModify
    }
}

/// How long recordings are kept in the history.
#[derive(Debug, Clone, Copy, PartialEq, Eq, Structural)]
pub enum RecordingRetentionPeriod {
    Never,
    PreserveLimit,
    Days3,
    Weeks2,
    Months3,
}

pub fn default_model() -> (r: String)
    ensures
        r@.len() == 0,
{
    String::new()
}

pub fn default_always_on_microphone() -> (r: bool)
    ensures
        !r,
{
    false
}

pub fn default_translate_to_english() -> (r: bool)
    ensures
        !r,
{
    false
}

pub fn default_start_hidden() -> (r: bool)
    ensures
        !r,
{
    false
}

pub fn default_autostart_enabled() -> (r: bool)
    ensures
        !r,
{
    false
}

pub fn default_selected_language() -> (r: String)
    ensures
        r@ == seq!['a', 'u', 't', 'o'],
{
    proof {
        reveal_strlit("auto");
    }
    let r = String::from_str("auto");
    proof {
        assert(r@ =~= seq!['a', 'u', 't', 'o']);
    }
    r
}

/// No overlay on Linux, at the bottom elsewhere.
pub fn default_overlay_position(linux: bool) -> (r: OverlayPosition)
    ensures
        r == (if linux { OverlayPosition::Hidden } else { OverlayPosition::Bottom }),
{
    if linux {
        OverlayPosition::Hidden
    } else {
        OverlayPosition::Bottom
    }
}

pub fn default_debug_mode() -> (r: bool)
    ensures
        !r,
{
    false
}

pub fn default_log_level() -> (r: LogLevel)
    ensures
        r == LogLevel::Debug,
{
    LogLevel::Debug
}

pub fn default_history_limit() -> (r: usize)
    ensures
        r == 5,
{
    5
}

pub fn default_recording_retention_period() -> (r: RecordingRetentionPeriod)
    ensures
        r == RecordingRetentionPeriod::PreserveLimit,
{
    RecordingRetentionPeriod::PreserveLimit
}

pub fn default_sound_theme() -> (r: SoundTheme)
    ensures
        r == SoundTheme::Marimba,
{
    SoundTheme::Marimba
}

pub fn default_post_process_enabled() -> (r: bool)
    ensures
        !r,
{
    false
}

pub fn default_post_process_provider_id() -> (r: String)
    ensures
        r@ == seq!['o', 'p', 'e', 'n', 'a', 'i'],
{
    proof {
        reveal_strlit("openai");
    }
    let r = String::from_str("openai");
    proof {
        assert(r@ =~= seq!['o', 'p', 'e', 'n', 'a', 'i']);
    }
    r
}


fn provider(id: &str, label: &str, base_url: &str, allow_base_url_edit: bool) -> (r: PostProcessProvider)
    ensures
        r.id@ == id@,
        r.label@ == label@,
        r.base_url@ == base_url@,
        r.allow_base_url_edit == allow_base_url_edit,
        r.models_endpoint is Some && r.models_endpoint.unwrap()@ == "/models"@,
{
    PostProcessProvider {
        id: String::from_str(id),
        label: String::from_str(label),
        base_url: String::from_str(base_url),
        allow_base_url_edit,
        models_endpoint: Some(String::from_str("/models")),
    }
}

/// The built-in post-processing endpoints; only the custom one lets the
/// user edit its address.
pub fn default_post_process_providers() -> (r: Vec<PostProcessProvider>)
    ensures
        r@.len() == 4,
        r@[0].id@ == "openai"@,
        r@[1].id@ == "openrouter"@,
        r@[2].id@ == "anthropic"@,
        r@[3].id@ == "custom"@,
        forall|i: int| 0 <= i < 4 ==> (#[trigger] r@[i]).allow_base_url_edit == (i == 3),
{
    let mut v: Vec<PostProcessProvider> = Vec::new();
    v.push(provider("openai", "OpenAI", "https://api.openai.com/v1", false));
    v.push(provider("openrouter", "OpenRouter", "https://openrouter.ai/api/v1", false));
    v.push(provider("anthropic", "Anthropic", "https://api.anthropic.com/v1", false));
    v.push(provider("custom", "Custom", "http://localhost:11434/v1", true));
    v
}

/// The built-in prompt for cleaning up transcripts.
pub fn default_post_process_prompts() -> (r: Vec<LLMPrompt>)
    ensures
        r@.len() == 1,
        r@[0].id@ == "default_improve_transcriptions"@,
        r@[0].name@ == "Improve Transcriptions"@,
{
    let mut v: Vec<LLMPrompt> = Vec::new();
    v.push(LLMPrompt {
        id: String::from_str("default_improve_transcriptions"),
        name: String::from_str("Improve Transcriptions"),
        prompt: String::from_str("Clean this transcript:\n1. Fix spelling, capitalization, and punctuation errors\n2. Convert number words to digits (twenty-five → 25, ten percent → 10%, five dollars → $5)\n3. Replace spoken punctuation with symbols (period → ., comma → ,, question mark → ?)\n4. Remove filler words (um, uh, like as filler)\n5. Keep the language in the original version (if it was french, keep it in french for example)\n\nPreserve exact meaning and word order. Do not paraphrase or reorder content.\n\nReturn only the cleaned transcript.\n\nTranscript:\n${output}"),
    });
    v
}

} // verus!
