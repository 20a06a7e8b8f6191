//! The transcription manager's state: at most one inference engine, loaded
//! on first use and dropped when idle, and the checks made before a decode.

use vstd::prelude::*;
use vstd::string::StringExecFns;
use crate::settings::{ModelUnloadTimeout, timeout_seconds};
use crate::text::{apply_custom_words, corrected_text, string_views, trim_text, trim_ws, Threshold};

verus! {

/// The two inference engine families.
#[derive(Debug, Clone, Copy, PartialEq, Eq, Structural)]
pub enum EngineType {
    Whisper,
    Parakeet,
}

/// What the model registry knows of a model.
pub struct ModelDescriptor {
    pub id: String,
    pub name: String,
    pub engine_type: EngineType,
    pub is_downloaded: bool,
}

/// Why a model could not be loaded or used.
#[derive(Debug, Clone, Copy, PartialEq, Eq, Structural)]
pub enum TranscriptionError {
    /// The registry does not know the model.
    ModelNotFound,
    /// The model is known but not on disk.
    ModelNotDownloaded,
    /// No engine is loaded when a decode is asked for.
    ModelNotLoaded,
    /// The engine could not load the model.
    ModelLoadFailed,
    /// The engine failed to decode; it stays loaded.
    DecodeFailed,
}

/// The payload of a `model-state-changed` event.
pub struct ModelStateEvent {
    pub event_type: String,
    pub model_id: Option<String>,
    pub model_name: Option<String>,
    pub error: Option<String>,
}

fn opt_string(s: Option<&str>) -> (r: Option<String>)
    ensures
        match s {
            Some(x) => r is Some && r.unwrap()@ == x@,
            None => r is None,
        },
{
    match s {
        Some(x) => Some(String::from_str(x)),
        None => None,
    }
}

impl ModelStateEvent {
    /// A load of `model_id` has begun.
    pub fn loading_started(model_id: &str) -> (r: ModelStateEvent)
        ensures
            r.event_type@ == "loading_started"@,
            r.model_id is Some && r.model_id.unwrap()@ == model_id@,
            r.model_name is None,
            r.error is None,
    {
        ModelStateEvent {
            event_type: String::from_str("loading_started"),
            model_id: Some(String::from_str(model_id)),
            model_name: None,
            error: None,
        }
    }

    /// The load of `model_id` has completed.
    pub fn loading_completed(model_id: &str, model_name: &str) -> (r: ModelStateEvent)
        ensures
            r.event_type@ == "loading_completed"@,
            r.model_id is Some && r.model_id.unwrap()@ == model_id@,
            r.model_name is Some && r.model_name.unwrap()@ == model_name@,
            r.error is None,
    {
        ModelStateEvent {
            event_type: String::from_str("loading_completed"),
            model_id: Some(String::from_str(model_id)),
            model_name: Some(String::from_str(model_name)),
            error: None,
        }
    }

    /// The load of `model_id` has failed with `error`.
    pub fn loading_failed(model_id: &str, model_name: Option<&str>, error: &str) -> (r: ModelStateEvent)
        ensures
            r.event_type@ == "loading_failed"@,
            r.model_id is Some && r.model_id.unwrap()@ == model_id@,
            match model_name {
                Some(n) => r.model_name is Some && r.model_name.unwrap()@ == n@,
                None => r.model_name is None,
            },
            r.error is Some && r.error.unwrap()@ == error@,
    {
        ModelStateEvent {
            event_type: String::from_str("loading_failed"),
            model_id: Some(String::from_str(model_id)),
            model_name: opt_string(model_name),
            error: Some(String::from_str(error)),
        }
    }

    /// The model has been unloaded.
    pub fn unloaded() -> (r: ModelStateEvent)
        ensures
            r.event_type@ == "unloaded"@,
            r.model_id is None,
            r.model_name is None,
            r.error is None,
    {
        ModelStateEvent { event_type: String::from_str("unloaded"), model_id: None, model_name: None, error: None }
    }
}

/// Whether a model may be handed to an engine: known and downloaded.
pub fn check_model(info: Option<&ModelDescriptor>) -> (r: Result<EngineType, TranscriptionError>)
    ensures
        match info {
            None => r == Err::<EngineType, TranscriptionError>(TranscriptionError::ModelNotFound),
            Some(d) => if d.is_downloaded {
                r == Ok::<EngineType, TranscriptionError>(d.engine_type)
            } else {
                r == Err::<EngineType, TranscriptionError>(TranscriptionError::ModelNotDownloaded)
            },
        },
{
    match info {
        None => Err(TranscriptionError::ModelNotFound),
        Some(d) => if d.is_downloaded {
            Ok(d.engine_type)
        } else {
            Err(TranscriptionError::ModelNotDownloaded)
        },
    }
}

/// The language hint given to Whisper: none for automatic detection, and
/// the Chinese script variants folded into their base language.
pub open spec fn whisper_language_spec(selected: Seq<char>) -> Option<Seq<char>> {
    if selected == seq!['a', 'u', 't', 'o'] {
        None
    } else if selected == seq!['z', 'h', '-', 'H', 'a', 'n', 's'] || selected == seq!['z', 'h', '-', 'H', 'a', 'n', 't'] {
        Some(seq!['z', 'h'])
    } else {
        Some(selected)
    }
}

pub fn whisper_language(selected: &str) -> (r: Option<String>)
    ensures
        match r {
            Some(s) => whisper_language_spec(selected@) == Some(s@),
            None => whisper_language_spec(selected@) is None,
        },
{
    let sel = String::from_str(selected);
    let auto = String::from_str("auto");
    let hans = String::from_str("zh-Hans");
    let hant = String::from_str("zh-Hant");
    proof {
        reveal_strlit("auto");
        reveal_strlit("zh-Hans");
        reveal_strlit("zh-Hant");
        reveal_strlit("zh");
        assert(auto@ =~= seq!['a', 'u', 't', 'o']);
        assert(hans@ =~= seq!['z', 'h', '-', 'H', 'a', 'n', 's']);
        assert(hant@ =~= seq!['z', 'h', '-', 'H', 'a', 'n', 't']);
        assert("zh"@ =~= seq!['z', 'h']);
    }
    if sel == auto {
        None
    } else if sel == hans || sel == hant {
        Some(String::from_str("zh"))
    } else {
        Some(sel)
    }
}

/// Whether the idle watcher unloads the model now: a model is loaded, the
/// timeout is a fixed interval (not `Never`, and not `Immediately`, which
/// the decode path handles), and more than that interval has passed since
/// the last activity.
pub open spec fn idle_unload_due_spec(timeout: ModelUnloadTimeout, loaded: bool, now_ms: u64, last_ms: u64) -> bool {
    &&& loaded
    &&& timeout != ModelUnloadTimeout::Immediately
    &&& timeout_seconds(timeout) is Some
    &&& (if now_ms >= last_ms { now_ms - last_ms } else { 0 }) > timeout_seconds(timeout).unwrap() * 1000
}

/// What a decode request must do first.
#[derive(Debug, Clone, Copy, PartialEq, Eq, Structural)]
pub enum TranscribeGate {
    /// No audio: the transcript is empty.
    Empty,
    /// A load is in progress: wait for it, then ask again.
    WaitForLoad,
    /// Another decode holds the engine: wait for it, then ask again.
    WaitForEngine,
    /// No engine is loaded.
    NotLoaded,
    /// An engine is loaded and free: decode.
    Ready,
}

/// The manager's state, as plain values.
pub struct ManagerModel<E> {
    /// The engine, when loaded and not lent out to a decode.
    pub engine: Option<E>,
    /// Whether the loaded engine is lent out to a decode.
    pub engine_lent: bool,
    pub current_model_id: Option<Seq<char>>,
    pub last_activity_ms: u64,
    pub is_loading: bool,
}

/// A model is loaded: its engine is in place or lent out to a decode.
pub open spec fn model_loaded<E>(m: ManagerModel<E>) -> bool {
    m.engine is Some || m.engine_lent
}

/// Owns at most one loaded engine of type `E` and the id of the model in
/// it. An engine is never present without a model id, and while one decode
/// holds the engine no other can have it.
pub struct TranscriptionManager<E> {
    engine: Option<E>,
    engine_lent: bool,
    current_model_id: Option<String>,
    last_activity_ms: u64,
    is_loading: bool,
}

impl<E> View for TranscriptionManager<E> {
    type V = ManagerModel<E>;

    closed spec fn view(&self) -> ManagerModel<E> {
        ManagerModel {
            engine: self.engine,
            engine_lent: self.engine_lent,
            current_model_id: match &self.current_model_id {
                Some(s) => Some(s@),
                None => None,
            },
            last_activity_ms: self.last_activity_ms,
            is_loading: self.is_loading,
        }
    }
}

/// A loaded model always has an id, and a lent engine is not also in place.
pub open spec fn manager_wf<E>(m: ManagerModel<E>) -> bool {
    &&& model_loaded(m) ==> m.current_model_id is Some
    &&& !(m.engine is Some && m.engine_lent)
}

/// The state after the model is dropped.
pub open spec fn unloaded_state<E>(m: ManagerModel<E>) -> ManagerModel<E> {
    ManagerModel { engine: None, engine_lent: false, current_model_id: None, ..m }
}

/// A `model-state-changed` event, as plain values.
pub struct EventView {
    pub event_type: Seq<char>,
    pub model_id: Option<Seq<char>>,
    pub model_name: Option<Seq<char>>,
    pub error: Option<Seq<char>>,
}

pub open spec fn opt_view(o: Option<String>) -> Option<Seq<char>> {
    match o {
        Some(s) => Some(s@),
        None => None,
    }
}

pub open spec fn event_view(e: ModelStateEvent) -> EventView {
    EventView {
        event_type: e.event_type@,
        model_id: opt_view(e.model_id),
        model_name: opt_view(e.model_name),
        error: opt_view(e.error),
    }
}

pub open spec fn event_views(es: Seq<ModelStateEvent>) -> Seq<EventView> {
    es.map_values(|e: ModelStateEvent| event_view(e))
}

pub open spec fn started_view(id: Seq<char>) -> EventView {
    EventView { event_type: "loading_started"@, model_id: Some(id), model_name: None, error: None }
}

/// The events of one load of `id`, in order: `loading_started`, then
/// `loading_failed` (unknown model, model not on disk, or the engine's
/// error `load_error`) or `loading_completed`.
pub open spec fn load_events_spec(id: Seq<char>, info: Option<ModelDescriptor>, load_error: Option<Seq<char>>) -> Seq<EventView> {
    let fail = |name: Option<Seq<char>>, err: Seq<char>|
        EventView { event_type: "loading_failed"@, model_id: Some(id), model_name: name, error: Some(err) };
    seq![started_view(id)] + match info {
        None => seq![fail(None, "Model not found: "@ + id)],
        Some(d) => if !d.is_downloaded {
            seq![fail(Some(d.name@), "Model not downloaded"@)]
        } else {
            match load_error {
                Some(err) => seq![fail(Some(d.name@), err)],
                None => seq![EventView {
                    event_type: "loading_completed"@,
                    model_id: Some(id),
                    model_name: Some(d.name@),
                    error: None,
                }],
            }
        },
    }
}

/// The engine's error message, if the engine load failed.
pub open spec fn load_error_of<E>(loaded: Result<E, String>) -> Option<Seq<char>> {
    match loaded {
        Ok(_) => None,
        Err(m) => Some(m@),
    }
}

impl<E> TranscriptionManager<E> {
    pub fn new(now_ms: u64) -> (r: Self)
        ensures
            manager_wf(r@),
            r@.engine is None,
            !r@.engine_lent,
            r@.current_model_id is None,
            r@.last_activity_ms == now_ms,
            !r@.is_loading,
    {
        TranscriptionManager {
            engine: None,
            engine_lent: false,
            current_model_id: None,
            last_activity_ms: now_ms,
            is_loading: false,
        }
    }

    /// Whether a model is loaded, whether or not a decode holds its engine.
    pub fn is_model_loaded(&self) -> (r: bool)
        ensures
            r == model_loaded(self@),
    {
        self.engine.is_some() || self.engine_lent
    }

    pub fn is_engine_lent(&self) -> (r: bool)
        ensures
            r == self@.engine_lent,
    {
        self.engine_lent
    }

    pub fn get_current_model(&self) -> (r: Option<String>)
        ensures
            match r {
                Some(s) => self@.current_model_id == Some(s@),
                None => self@.current_model_id is None,
            },
    {
        match &self.current_model_id {
            Some(s) => Some(s.clone()),
            None => None,
        }
    }

    pub fn is_loading(&self) -> (r: bool)
        ensures
            r == self@.is_loading,
    {
        self.is_loading
    }

    pub fn last_activity_ms(&self) -> (r: u64)
        ensures
            r == self@.last_activity_ms,
    {
        self.last_activity_ms
    }

    /// Claims the right to start a background load: refused while a load
    /// runs or a model is loaded.
    pub fn initiate_model_load(&mut self) -> (r: bool)
        requires
            manager_wf(old(self)@),
        ensures
            manager_wf(final(self)@),
            r == (!old(self)@.is_loading && !model_loaded(old(self)@)),
            r ==> final(self)@ == (ManagerModel { is_loading: true, ..old(self)@ }),
            !r ==> final(self)@ == old(self)@,
    {
        if self.is_loading || self.is_model_loaded() {
            return false;
        }
        self.is_loading = true;
        true
    }

    /// The background load has ended, successfully or not.
    pub fn finish_model_load(&mut self)
        requires
            manager_wf(old(self)@),
        ensures
            manager_wf(final(self)@),
            final(self)@ == (ManagerModel { is_loading: false, ..old(self)@ }),
    {
        self.is_loading = false;
    }

    /// Installs a freshly loaded engine for `model_id`, handing back the one
    /// it replaces so that the caller releases it. An engine lent out at
    /// that moment is refused when it comes back.
    pub fn install_engine(&mut self, engine: E, model_id: &str) -> (r: Option<E>)
        requires
            manager_wf(old(self)@),
        ensures
            manager_wf(final(self)@),
            r == old(self)@.engine,
            final(self)@ == (ManagerModel {
                engine: Some(engine),
                engine_lent: false,
                current_model_id: Some(model_id@),
                ..old(self)@
            }),
    {
        let previous = self.engine.take();
        self.engine = Some(engine);
        self.engine_lent = false;
        self.current_model_id = Some(String::from_str(model_id));
        previous
    }

    /// The rest of a load of `model_id`, once `loading_started` has been
    /// emitted and the engine load has been tried (`loaded`; its error is
    /// ignored when the registry already rules the model out). On success
    /// the engine is installed and the replaced one handed back; on failure
    /// nothing changes. The events returned follow `loading_started`.
    pub fn finish_load(&mut self, model_id: &str, info: Option<&ModelDescriptor>, loaded: Result<E, String>)
        -> (r: (Result<Option<E>, TranscriptionError>, Vec<ModelStateEvent>))
        requires
            manager_wf(old(self)@),
        ensures
            manager_wf(final(self)@),
            seq![started_view(model_id@)] + event_views(r.1@) == load_events_spec(
                model_id@,
                match info { Some(d) => Some(*d), None => None },
                load_error_of(loaded),
            ),
            match info {
                None => r.0 == Err::<Option<E>, TranscriptionError>(TranscriptionError::ModelNotFound)
                    && final(self)@ == old(self)@,
                Some(d) => if !d.is_downloaded {
                    r.0 == Err::<Option<E>, TranscriptionError>(TranscriptionError::ModelNotDownloaded)
                        && final(self)@ == old(self)@
                } else {
                    match loaded {
                        Err(_) => r.0 == Err::<Option<E>, TranscriptionError>(TranscriptionError::ModelLoadFailed)
                            && final(self)@ == old(self)@,
                        Ok(e) => r.0 == Ok::<Option<E>, TranscriptionError>(old(self)@.engine)
                            && final(self)@ == (ManagerModel {
                                engine: Some(e),
                                engine_lent: false,
                                current_model_id: Some(model_id@),
                                ..old(self)@
                            }),
                    }
                },
            },
    {
        let ghost lv = match info { Some(d) => Some(*d), None => None::<ModelDescriptor> };
        let ghost le = load_error_of(loaded);
        let mut events: Vec<ModelStateEvent> = Vec::new();
        let result = match info {
            None => {
                let mut msg = String::from_str("Model not found: ");
                msg.append(model_id);
                events.push(ModelStateEvent::loading_failed(model_id, None, msg.as_str()));
                Err(TranscriptionError::ModelNotFound)
            },
            Some(d) => if !d.is_downloaded {
                events.push(ModelStateEvent::loading_failed(model_id, Some(d.name.as_str()), "Model not downloaded"));
                Err(TranscriptionError::ModelNotDownloaded)
            } else {
                match loaded {
                    Err(m) => {
                        events.push(ModelStateEvent::loading_failed(model_id, Some(d.name.as_str()), m.as_str()));
                        Err(TranscriptionError::ModelLoadFailed)
                    },
                    Ok(e) => {
                        let previous = self.install_engine(e, model_id);
                        events.push(ModelStateEvent::loading_completed(model_id, d.name.as_str()));
                        Ok(previous)
                    },
                }
            },
        };
        proof {
            assert(event_views(events@).len() == 1);
            assert(seq![started_view(model_id@)] + event_views(events@) =~= load_events_spec(model_id@, lv, le));
        }
        (result, events)
    }

    /// Drops the model and forgets its id; the engine in place, if any, is
    /// handed back so that the caller releases its memory. An engine lent
    /// out at that moment is refused when it comes back.
    pub fn unload_model(&mut self) -> (r: Option<E>)
        requires
            manager_wf(old(self)@),
        ensures
            manager_wf(final(self)@),
            r == old(self)@.engine,
            final(self)@ == unloaded_state(old(self)@),
    {
        self.current_model_id = None;
        self.engine_lent = false;
        self.engine.take()
    }

    /// Lends the engine out for one decode; `return_engine` puts it back.
    /// While it is out the model still counts as loaded.
    pub fn take_engine(&mut self) -> (r: Option<E>)
        requires
            manager_wf(old(self)@),
        ensures
            manager_wf(final(self)@),
            r == old(self)@.engine,
            old(self)@.engine is Some ==> final(self)@ == (ManagerModel { engine: None, engine_lent: true, ..old(self)@ }),
            old(self)@.engine is None ==> final(self)@ == old(self)@,
    {
        match self.engine.take() {
            Some(e) => {
                self.engine_lent = true;
                Some(e)
            },
            None => None,
        }
    }

    /// Brings back an engine lent out by `take_engine`. If the model was
    /// unloaded or replaced meanwhile, the engine is handed back to be
    /// released instead.
    pub fn return_engine(&mut self, engine: E) -> (r: Option<E>)
        requires
            manager_wf(old(self)@),
        ensures
            manager_wf(final(self)@),
            old(self)@.engine_lent ==> r is None
                && final(self)@ == (ManagerModel { engine: Some(engine), engine_lent: false, ..old(self)@ }),
            !old(self)@.engine_lent ==> r == Some(engine) && final(self)@ == old(self)@,
    {
        if self.engine_lent {
            self.engine = Some(engine);
            self.engine_lent = false;
            None
        } else {
            Some(engine)
        }
    }

    /// The idle watcher's decision on one tick.
    pub fn idle_unload_due(&self, timeout: ModelUnloadTimeout, now_ms: u64) -> (r: bool)
        ensures
            r == idle_unload_due_spec(timeout, model_loaded(self@), now_ms, self@.last_activity_ms),
    {
        if !self.is_model_loaded() || timeout == ModelUnloadTimeout::Immediately {
            return false;
        }
        match timeout.to_seconds() {
            None => false,
            Some(limit) => {
                let idle = now_ms.saturating_sub(self.last_activity_ms);
                idle > limit * 1000
            },
        }
    }

    /// Entry of a decode request: records the activity time, then says
    /// what must happen before decoding `n_samples` samples.
    pub fn begin_transcribe(&mut self, now_ms: u64, n_samples: usize) -> (r: TranscribeGate)
        requires
            manager_wf(old(self)@),
        ensures
            manager_wf(final(self)@),
            final(self)@ == (ManagerModel { last_activity_ms: now_ms, ..old(self)@ }),
            r == (if n_samples == 0 {
                TranscribeGate::Empty
            } else if old(self)@.is_loading {
                TranscribeGate::WaitForLoad
            } else if old(self)@.engine_lent {
                TranscribeGate::WaitForEngine
            } else if old(self)@.engine is None {
                TranscribeGate::NotLoaded
            } else {
                TranscribeGate::Ready
            }),
    {
        self.last_activity_ms = now_ms;
        if n_samples == 0 {
            TranscribeGate::Empty
        } else if self.is_loading {
            TranscribeGate::WaitForLoad
        } else if self.engine_lent {
            TranscribeGate::WaitForEngine
        } else if self.engine.is_none() {
            TranscribeGate::NotLoaded
        } else {
            TranscribeGate::Ready
        }
    }

    /// Exit of every decode request, whatever its gate said: with the
    /// `Immediately` setting the model is dropped (the engine in place
    /// handed back to be released), unless the engine failed to decode,
    /// which keeps it loaded; otherwise nothing changes. The result's
    /// second part says whether an `unloaded` event is due.
    pub fn end_transcribe(&mut self, timeout: ModelUnloadTimeout, decode_failed: bool) -> (r: (Option<E>, bool))
        requires
            manager_wf(old(self)@),
        ensures
            manager_wf(final(self)@),
            r.1 == (timeout == ModelUnloadTimeout::Immediately && !decode_failed),
            r.1 ==> r.0 == old(self)@.engine && final(self)@ == unloaded_state(old(self)@),
            !r.1 ==> r.0 is None && final(self)@ == old(self)@,
    {
        if timeout == ModelUnloadTimeout::Immediately && !decode_failed {
            (self.unload_model(), true)
        } else {
            (None, false)
        }
    }
}

/// The transcript handed back for an engine's raw text: corrected against
/// the user words when there are any, then trimmed of surrounding white
/// space.
pub fn finish_transcript(raw: &str, custom_words: &[String], threshold: Threshold) -> (r: String)
    ensures
        r@ == trim_ws(corrected_text(raw@, string_views(custom_words@), threshold)),
{
    if custom_words.len() > 0 {
        let fixed = apply_custom_words(raw, custom_words, threshold);
        trim_text(fixed.as_str())
    } else {
        trim_text(raw)
    }
}

/// Whether the model is dropped right after each decode request
/// (`TranscriptionManager::end_transcribe` does it).
pub fn unload_after_transcription(timeout: ModelUnloadTimeout) -> (r: bool)
    ensures
        r == (timeout == ModelUnloadTimeout::Immediately),
{
    timeout == ModelUnloadTimeout::Immediately
}

} // verus!
