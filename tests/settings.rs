use handy::device_config::{format_supported, preferred_config, ConfigRange, SampleFormat, WHISPER_SAMPLE_RATE};
use handy::settings::{
    default_log_level, default_overlay_position, default_post_process_provider_id,
    default_selected_language, level_filter_from_u8, LevelFilter, LogLevel, ModelUnloadTimeout,
    OverlayPosition, PasteMethod, SoundTheme,
};

#[test]
fn unload_timeouts() {
    assert_eq!(ModelUnloadTimeout::Never.to_minutes(), None);
    assert_eq!(ModelUnloadTimeout::Min15.to_minutes(), Some(15));
    assert_eq!(ModelUnloadTimeout::Hour1.to_seconds(), Some(3600));
    assert_eq!(ModelUnloadTimeout::Sec5.to_minutes(), Some(0));
    assert_eq!(ModelUnloadTimeout::Sec5.to_seconds(), Some(5));
    assert_eq!(ModelUnloadTimeout::Immediately.to_seconds(), Some(0));
    assert_eq!(ModelUnloadTimeout::default(), ModelUnloadTimeout::Never);
}

#[test]
fn sound_theme_paths() {
    assert_eq!(SoundTheme::Marimba.to_start_path(), "resources/marimba_start.wav");
    assert_eq!(SoundTheme::Pop.to_stop_path(), "resources/pop_stop.wav");
    assert_eq!(SoundTheme::Custom.as_str(), "custom");
}

#[test]
fn levels() {
    assert_eq!(level_filter_from_u8(0), LevelFilter::Off);
    assert_eq!(level_filter_from_u8(3), LevelFilter::Info);
    assert_eq!(level_filter_from_u8(200), LevelFilter::Trace);
    assert_eq!(LogLevel::from_number(2), Some(LogLevel::Debug));
    assert_eq!(LogLevel::from_number(6), None);
    assert_eq!(default_log_level(), LogLevel::Debug);
}

#[test]
fn platform_defaults() {
    assert_eq!(default_overlay_position(true), OverlayPosition::Hidden);
    assert_eq!(default_overlay_position(false), OverlayPosition::Bottom);
    assert_eq!(PasteMethod::default_for(true), PasteMethod::Direct);
    assert_eq!(default_selected_language(), "auto");
    assert_eq!(default_post_process_provider_id(), "openai");
}

fn range(min: u32, max: u32, f: SampleFormat) -> ConfigRange {
    ConfigRange { channels: 1, min_sample_rate: min, max_sample_rate: max, sample_format: f }
}

#[test]
fn config_preference() {
    let configs = vec![
        range(44100, 48000, SampleFormat::F32),
        range(8000, 48000, SampleFormat::I32),
        range(8000, 48000, SampleFormat::U8),
        range(16000, 16000, SampleFormat::I16),
        range(8000, 96000, SampleFormat::I16),
    ];
    assert_eq!(preferred_config(&configs, WHISPER_SAMPLE_RATE), Some(3));
    assert_eq!(preferred_config(&configs[..3], WHISPER_SAMPLE_RATE), Some(1));
    assert_eq!(preferred_config(&configs[..1], WHISPER_SAMPLE_RATE), None);
    assert_eq!(preferred_config(&[], WHISPER_SAMPLE_RATE), None);
    assert!(format_supported(SampleFormat::I8));
    assert!(!format_supported(SampleFormat::U16));
}

#[test]
fn built_in_providers_and_prompts() {
    let p = handy::settings::default_post_process_providers();
    let ids: Vec<&str> = p.iter().map(|x| x.id.as_str()).collect();
    assert_eq!(ids, vec!["openai", "openrouter", "anthropic", "custom"]);
    assert!(p[3].allow_base_url_edit && !p[0].allow_base_url_edit);
    assert_eq!(p[1].base_url, "https://openrouter.ai/api/v1");
    assert_eq!(p[2].models_endpoint.as_deref(), Some("/models"));
    let prompts = handy::settings::default_post_process_prompts();
    assert_eq!(prompts[0].id, "default_improve_transcriptions");
    assert!(prompts[0].prompt.ends_with("${output}"));
}

#[test]
fn input_tool_preference() {
    use_tool_checks();
}

fn use_tool_checks() {
    let pick = handy::injection::choose_input_tool;
    let t = handy::injection::InputTool::Wtype;
    assert_eq!(pick(true, true, true, true), Some(t));
    assert_eq!(pick(true, false, true, true), Some(handy::injection::InputTool::Dotool));
    assert_eq!(pick(true, false, false, true), None);
    assert_eq!(pick(false, true, true, true), Some(handy::injection::InputTool::Xdotool));
    assert_eq!(pick(false, true, true, false), None);
}
