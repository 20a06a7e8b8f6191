use handy::transcription::finish_transcript;
use handy::text::Threshold;
use handy::settings::ModelUnloadTimeout;
use handy::transcription::{
    check_model, unload_after_transcription, whisper_language, EngineType, ModelDescriptor,
    ModelStateEvent, TranscribeGate, TranscriptionError, TranscriptionManager,
};

#[test]
fn idle_model_is_unloaded_after_the_timeout() {
    let mut m = TranscriptionManager::<&str>::new(0);
    assert!(m.install_engine("engine", "small").is_none());
    assert!(m.is_model_loaded());
    assert_eq!(m.get_current_model(), Some("small".to_string()));
    assert_eq!(m.begin_transcribe(1_000, 10), TranscribeGate::Ready);
    let t = ModelUnloadTimeout::Min2;
    assert!(!m.idle_unload_due(t, 1_000 + 120_000));
    assert!(m.idle_unload_due(t, 1_000 + 120_001));
    assert_eq!(m.unload_model(), Some("engine"));
    let ev = ModelStateEvent::unloaded();
    assert_eq!(ev.event_type, "unloaded");
    assert!(!m.is_model_loaded());
    assert_eq!(m.get_current_model(), None);
    assert!(!m.idle_unload_due(t, 10_000_000));
}

#[test]
fn never_and_immediately_are_not_watched() {
    let mut m = TranscriptionManager::<u8>::new(0);
    m.install_engine(1, "m");
    assert!(!m.idle_unload_due(ModelUnloadTimeout::Never, u64::MAX));
    assert!(!m.idle_unload_due(ModelUnloadTimeout::Immediately, u64::MAX));
    assert!(m.idle_unload_due(ModelUnloadTimeout::Sec5, 5_001));
    assert!(!m.idle_unload_due(ModelUnloadTimeout::Sec5, 5_000));
    assert!(unload_after_transcription(ModelUnloadTimeout::Immediately));
    assert!(!unload_after_transcription(ModelUnloadTimeout::Min5));
}

#[test]
fn clock_going_back_counts_as_no_idle_time() {
    let mut m = TranscriptionManager::<u8>::new(50_000);
    m.install_engine(1, "m");
    assert!(!m.idle_unload_due(ModelUnloadTimeout::Sec5, 10));
}

#[test]
fn transcribe_gate() {
    let mut m = TranscriptionManager::<u8>::new(0);
    assert_eq!(m.begin_transcribe(5, 0), TranscribeGate::Empty);
    assert_eq!(m.last_activity_ms(), 5);
    assert_eq!(m.begin_transcribe(6, 100), TranscribeGate::NotLoaded);
    assert!(m.initiate_model_load());
    assert!(!m.initiate_model_load());
    assert_eq!(m.begin_transcribe(7, 100), TranscribeGate::WaitForLoad);
    m.install_engine(9, "base");
    m.finish_model_load();
    assert!(!m.initiate_model_load());
    assert_eq!(m.begin_transcribe(8, 100), TranscribeGate::Ready);
    let e = m.take_engine().unwrap();
    assert_eq!(e, 9);
    // a decode holds the engine: the model still counts as loaded
    assert!(m.is_model_loaded());
    assert!(m.is_engine_lent());
    assert_eq!(m.begin_transcribe(9, 100), TranscribeGate::WaitForEngine);
    assert_eq!(m.take_engine(), None);
    assert_eq!(m.return_engine(e), None);
    assert!(m.is_model_loaded());
    assert_eq!(m.begin_transcribe(10, 100), TranscribeGate::Ready);
}

#[test]
fn installing_returns_the_previous_engine() {
    let mut m = TranscriptionManager::<u8>::new(0);
    assert_eq!(m.install_engine(1, "a"), None);
    assert_eq!(m.install_engine(2, "b"), Some(1));
    assert_eq!(m.get_current_model(), Some("b".to_string()));
}

#[test]
fn whisper_language_hint() {
    assert_eq!(whisper_language("auto"), None);
    assert_eq!(whisper_language("zh-Hans"), Some("zh".to_string()));
    assert_eq!(whisper_language("zh-Hant"), Some("zh".to_string()));
    assert_eq!(whisper_language("de"), Some("de".to_string()));
}

#[test]
fn model_checks() {
    let ready = ModelDescriptor {
        id: "p".to_string(),
        name: "Parakeet".to_string(),
        engine_type: EngineType::Parakeet,
        is_downloaded: true,
    };
    let missing = ModelDescriptor { is_downloaded: false, ..ready_copy(&ready) };
    assert_eq!(check_model(Some(&ready)), Ok(EngineType::Parakeet));
    assert_eq!(check_model(Some(&missing)), Err(TranscriptionError::ModelNotDownloaded));
    assert_eq!(check_model(None), Err(TranscriptionError::ModelNotFound));
}

fn ready_copy(d: &ModelDescriptor) -> ModelDescriptor {
    ModelDescriptor {
        id: d.id.clone(),
        name: d.name.clone(),
        engine_type: d.engine_type,
        is_downloaded: d.is_downloaded,
    }
}

#[test]
fn model_events() {
    let e = ModelStateEvent::loading_started("x");
    assert_eq!(e.event_type, "loading_started");
    assert_eq!(e.model_id, Some("x".to_string()));
    let e = ModelStateEvent::loading_completed("x", "X");
    assert_eq!(e.event_type, "loading_completed");
    assert_eq!(e.model_name, Some("X".to_string()));
    let e = ModelStateEvent::loading_failed("x", None, "Model not downloaded");
    assert_eq!(e.event_type, "loading_failed");
    assert_eq!(e.error, Some("Model not downloaded".to_string()));
    assert_eq!(e.model_name, None);
}

#[test]
fn transcript_is_corrected_then_trimmed() {
    let words = vec!["hello".to_string()];
    let half = Threshold { num: 1, den: 2 };
    assert_eq!(finish_transcript("  helo there \n", &words, half), "hello there");
    assert_eq!(finish_transcript("  helo  there \n", &[], half), "helo  there");
    assert_eq!(finish_transcript(" \t ", &[], half), "");
}

fn descriptor(downloaded: bool) -> ModelDescriptor {
    ModelDescriptor {
        id: "small".to_string(),
        name: "Small".to_string(),
        engine_type: EngineType::Whisper,
        is_downloaded: downloaded,
    }
}

#[test]
fn successful_load_completes_and_replaces() {
    let mut m = TranscriptionManager::<u8>::new(0);
    m.install_engine(1, "old");
    let d = descriptor(true);
    let (r, events) = m.finish_load("small", Some(&d), Ok(2));
    assert_eq!(r, Ok(Some(1)));
    assert_eq!(events.len(), 1);
    assert_eq!(events[0].event_type, "loading_completed");
    assert_eq!(events[0].model_id, Some("small".to_string()));
    assert_eq!(events[0].model_name, Some("Small".to_string()));
    assert_eq!(m.get_current_model(), Some("small".to_string()));
    assert!(m.is_model_loaded());
}

#[test]
fn failed_loads_report_and_change_nothing() {
    let mut m = TranscriptionManager::<u8>::new(0);
    m.install_engine(1, "old");
    let (r, events) = m.finish_load("nope", None, Err(String::new()));
    assert_eq!(r, Err(TranscriptionError::ModelNotFound));
    assert_eq!(events[0].event_type, "loading_failed");
    assert_eq!(events[0].error, Some("Model not found: nope".to_string()));
    let d = descriptor(false);
    let (r, events) = m.finish_load("small", Some(&d), Ok(5));
    assert_eq!(r, Err(TranscriptionError::ModelNotDownloaded));
    assert_eq!(events[0].error, Some("Model not downloaded".to_string()));
    let d = descriptor(true);
    let (r, events) = m.finish_load("small", Some(&d), Err("bad file".to_string()));
    assert_eq!(r, Err(TranscriptionError::ModelLoadFailed));
    assert_eq!(events[0].error, Some("bad file".to_string()));
    assert_eq!(events[0].model_id, Some("small".to_string()));
    assert_eq!(m.get_current_model(), Some("old".to_string()));
    assert_eq!(m.take_engine(), Some(1));
}

#[test]
fn immediate_unload_follows_every_request() {
    let mut m = TranscriptionManager::<u8>::new(0);
    m.install_engine(3, "m");
    assert_eq!(m.begin_transcribe(1, 0), TranscribeGate::Empty);
    assert_eq!(m.end_transcribe(ModelUnloadTimeout::Immediately, false), (Some(3), true));
    assert!(!m.is_model_loaded());
    assert_eq!(m.get_current_model(), None);
    m.install_engine(4, "m");
    assert_eq!(m.end_transcribe(ModelUnloadTimeout::Min5, false), (None, false));
    assert!(m.is_model_loaded());
    // a failed decode keeps the engine loaded, even under Immediately
    assert_eq!(m.end_transcribe(ModelUnloadTimeout::Immediately, true), (None, false));
    assert!(m.is_model_loaded());
    assert_eq!(m.get_current_model(), Some("m".to_string()));
}

#[test]
fn engine_returned_after_unload_is_refused() {
    let mut m = TranscriptionManager::<u8>::new(0);
    m.install_engine(3, "m");
    let e = m.take_engine().unwrap();
    assert_eq!(m.unload_model(), None);
    assert!(!m.is_model_loaded());
    assert_eq!(m.return_engine(e), Some(3));
    assert!(!m.is_model_loaded());
}
