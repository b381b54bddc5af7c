use handy_core::settings::{
    default_always_on_microphone, default_debug_mode, default_display_duration,
    default_embedding_model, default_max_suggestions, default_ollama_model,
    default_post_process_enabled, default_post_process_provider_id, default_system_prompt,
    default_top_k, default_translate_to_english, OverlayPosition, PasteMethod,
    default_categories, default_context_window_size, default_history_limit, default_log_level,
    default_model_for_provider, default_ollama_base_url, default_paste_delay_ms,
    default_post_process_prompts, default_post_process_providers, default_prompts,
    default_quick_responses, default_recording_retention_period, default_segment_duration_seconds,
    default_selected_language, default_sound_theme, ActiveListeningPrompt, AudioSourceType,
    ClipboardHandling, GeneralSettings, LogLevel, ModelUnloadTimeout, PromptCategory,
    RecordingRetentionPeriod, SoundCategory, SoundTheme, WarningSeverity,
};

#[test]
fn test_default_prompts() {
    let prompts = default_prompts();

    assert_eq!(prompts.len(), 7);

    // Check note-taking prompts
    let meeting_notes = &prompts[0];
    assert_eq!(meeting_notes.id, "default_meeting_notes");
    assert_eq!(meeting_notes.name, "Meeting Notes");
    assert!(meeting_notes.prompt_template.contains("{{transcription}}"));
    assert!(meeting_notes.prompt_template.contains("{{previous_context}}"));
    assert!(meeting_notes.prompt_template.contains("{{session_topic}}"));
    assert!(meeting_notes.is_default);
    assert_eq!(meeting_notes.category, PromptCategory::NoteTaking);

    let action_items = &prompts[1];
    assert_eq!(action_items.id, "default_action_items");
    assert_eq!(action_items.name, "Action Items");
    assert!(action_items.is_default);
    assert_eq!(action_items.category, PromptCategory::NoteTaking);

    // Check meeting coach prompts
    let objection_handler = &prompts[2];
    assert_eq!(objection_handler.id, "meeting_coach_objection_handler");
    assert_eq!(objection_handler.name, "Objection Handler");
    assert!(objection_handler.is_default);
    assert_eq!(objection_handler.category, PromptCategory::MeetingCoach);

    let sales_coach = &prompts[3];
    assert_eq!(sales_coach.id, "meeting_coach_sales");
    assert_eq!(sales_coach.name, "Sales Coach");
    assert!(sales_coach.is_default);
    assert_eq!(sales_coach.category, PromptCategory::MeetingCoach);

    let interview_assistant = &prompts[4];
    assert_eq!(interview_assistant.id, "meeting_coach_interview");
    assert_eq!(interview_assistant.name, "Interview Assistant");
    assert!(interview_assistant.is_default);
    assert_eq!(interview_assistant.category, PromptCategory::MeetingCoach);

    let negotiation_coach = &prompts[5];
    assert_eq!(negotiation_coach.id, "meeting_coach_negotiation");
    assert_eq!(negotiation_coach.name, "Negotiation Coach");
    assert!(negotiation_coach.is_default);
    assert_eq!(negotiation_coach.category, PromptCategory::MeetingCoach);

    let presentation_coach = &prompts[6];
    assert_eq!(presentation_coach.id, "meeting_coach_presentation");
    assert_eq!(presentation_coach.name, "Presentation Coach");
    assert!(presentation_coach.is_default);
    assert_eq!(presentation_coach.category, PromptCategory::MeetingCoach);
}

#[test]
fn test_prompt_category_default() {
    let category = PromptCategory::default();
    assert_eq!(category, PromptCategory::NoteTaking);
}

#[test]
fn test_active_listening_prompt_fields() {
    let prompt = ActiveListeningPrompt {
        id: "test_id".to_string(),
        name: "Test Prompt".to_string(),
        prompt_template: "Hello {{transcription}}".to_string(),
        created_at: 1234567890,
        is_default: false,
        category: PromptCategory::Custom,
    };

    assert_eq!(prompt.id, "test_id");
    assert_eq!(prompt.name, "Test Prompt");
    assert_eq!(prompt.prompt_template, "Hello {{transcription}}");
    assert_eq!(prompt.created_at, 1234567890);
    assert!(!prompt.is_default);
    assert_eq!(prompt.category, PromptCategory::Custom);
}

#[test]
fn test_audio_source_type_default() {
    let source = AudioSourceType::default();
    assert_eq!(source, AudioSourceType::Microphone);
}

#[test]
fn test_audio_source_type_variants() {
    let mic = AudioSourceType::Microphone;
    let system = AudioSourceType::SystemAudio;
    let mixed = AudioSourceType::Mixed;

    assert_ne!(mic, system);
    assert_ne!(mic, mixed);
    assert_ne!(system, mixed);
}

#[test]
fn test_prompt_clone() {
    let prompt = ActiveListeningPrompt {
        id: "test".to_string(),
        name: "Test".to_string(),
        prompt_template: "Template".to_string(),
        created_at: 100,
        is_default: true,
        category: PromptCategory::MeetingCoach,
    };
    let cloned = prompt.clone();

    assert_eq!(prompt.id, cloned.id);
    assert_eq!(prompt.name, cloned.name);
    assert_eq!(prompt.is_default, cloned.is_default);
    assert_eq!(prompt.category, cloned.category);
}

#[test]
fn test_audio_source_type_clone_and_copy() {
    let source = AudioSourceType::SystemAudio;
    let cloned = source.clone();
    let copied = source; // Copy trait

    assert_eq!(source, cloned);
    assert_eq!(source, copied);
}

#[test]
fn test_model_unload_timeout_to_minutes() {
    assert_eq!(ModelUnloadTimeout::Never.to_minutes(), None);
    assert_eq!(ModelUnloadTimeout::Immediately.to_minutes(), Some(0));
    assert_eq!(ModelUnloadTimeout::Min2.to_minutes(), Some(2));
    assert_eq!(ModelUnloadTimeout::Min5.to_minutes(), Some(5));
    assert_eq!(ModelUnloadTimeout::Min10.to_minutes(), Some(10));
    assert_eq!(ModelUnloadTimeout::Min15.to_minutes(), Some(15));
    assert_eq!(ModelUnloadTimeout::Hour1.to_minutes(), Some(60));
    assert_eq!(ModelUnloadTimeout::Sec5.to_minutes(), Some(0)); // Special debug case
}

#[test]
fn test_model_unload_timeout_to_seconds() {
    assert_eq!(ModelUnloadTimeout::Never.to_seconds(), None);
    assert_eq!(ModelUnloadTimeout::Immediately.to_seconds(), Some(0));
    assert_eq!(ModelUnloadTimeout::Min2.to_seconds(), Some(120));
    assert_eq!(ModelUnloadTimeout::Min5.to_seconds(), Some(300));
    assert_eq!(ModelUnloadTimeout::Min10.to_seconds(), Some(600));
    assert_eq!(ModelUnloadTimeout::Min15.to_seconds(), Some(900));
    assert_eq!(ModelUnloadTimeout::Hour1.to_seconds(), Some(3600));
    assert_eq!(ModelUnloadTimeout::Sec5.to_seconds(), Some(5)); // Special debug case
}

#[test]
fn test_sound_theme_paths() {
    assert_eq!(SoundTheme::Marimba.to_start_path(), "resources/marimba_start.wav");
    assert_eq!(SoundTheme::Marimba.to_stop_path(), "resources/marimba_stop.wav");
    assert_eq!(SoundTheme::Pop.to_start_path(), "resources/pop_start.wav");
    assert_eq!(SoundTheme::Pop.to_stop_path(), "resources/pop_stop.wav");
    assert_eq!(SoundTheme::Custom.to_start_path(), "resources/custom_start.wav");
    assert_eq!(SoundTheme::Custom.to_stop_path(), "resources/custom_stop.wav");
}

#[test]
fn test_default_quick_responses() {
    let responses = default_quick_responses();

    assert!(!responses.is_empty());

    // Check pricing objection exists
    let pricing = responses.iter().find(|qr| qr.id == "qr_too_expensive");
    assert!(pricing.is_some());
    assert!(pricing.unwrap().enabled);
    assert!(!pricing.unwrap().trigger_phrases.is_empty());

    // Check interview response exists
    let interview = responses.iter().find(|qr| qr.id == "qr_weakness");
    assert!(interview.is_some());
    assert_eq!(interview.unwrap().category, "interview");
}

#[test]
fn test_quick_response_clone() {
    let qr = handy_core::settings::QuickResponse {
        id: "test".to_string(),
        name: "Test".to_string(),
        trigger_phrases: vec!["trigger".to_string()],
        category: "test".to_string(),
        response_template: "Response".to_string(),
        enabled: true,
        created_at: 12345,
    };

    let cloned = qr.clone();
    assert_eq!(qr.id, cloned.id);
    assert_eq!(qr.trigger_phrases, cloned.trigger_phrases);
}

#[test]
fn test_warning_severity_default() {
    let severity = WarningSeverity::default();
    assert_eq!(severity, WarningSeverity::Low);
}


#[test]
fn log_level_reads_names_and_numbers() {
    assert_eq!(LogLevel::from_name("debug"), Some(LogLevel::Debug));
    assert_eq!(LogLevel::from_name("TRACE"), Some(LogLevel::Trace));
    assert_eq!(LogLevel::from_name("Info"), Some(LogLevel::Info));
    assert_eq!(LogLevel::from_name("warn"), Some(LogLevel::Warn));
    assert_eq!(LogLevel::from_name("error"), Some(LogLevel::Error));
    assert_eq!(LogLevel::from_name("verbose"), None);
    assert_eq!(LogLevel::from_name(""), None);
    assert_eq!(LogLevel::from_number(3), Some(LogLevel::Info));
    assert_eq!(LogLevel::from_number(1), Some(LogLevel::Trace));
    assert_eq!(LogLevel::from_number(5), Some(LogLevel::Error));
    assert_eq!(LogLevel::from_number(0), None);
    assert_eq!(LogLevel::from_number(6), None);
    for level in [LogLevel::Trace, LogLevel::Debug, LogLevel::Info, LogLevel::Warn, LogLevel::Error] {
        assert_eq!(LogLevel::from_number(level.to_number() as u64), Some(level));
    }
}

#[test]
fn defaults_are_the_documented_ones() {
    assert_eq!(default_selected_language(), "auto");
    assert_eq!(default_log_level(), LogLevel::Debug);
    assert_eq!(default_history_limit(), 5);
    assert_eq!(default_recording_retention_period(), RecordingRetentionPeriod::PreserveLimit);
    assert_eq!(default_sound_theme(), SoundTheme::Marimba);
    assert_eq!(default_paste_delay_ms(), 50);
    assert_eq!(default_segment_duration_seconds(), 15);
    assert_eq!(default_context_window_size(), 3);
    assert_eq!(default_ollama_base_url(), "http://localhost:11434");
    assert_eq!(ModelUnloadTimeout::default(), ModelUnloadTimeout::Never);
    assert_eq!(ClipboardHandling::default(), ClipboardHandling::DontModify);
    assert_eq!(default_categories().len(), 8);
    assert_eq!(default_categories()[0], SoundCategory::Doorbell);
    assert_eq!(default_model_for_provider("apple_intelligence"), "Apple Intelligence");
    assert_eq!(default_model_for_provider("openai"), "");
}

#[test]
fn default_providers_end_with_the_custom_one() {
    let providers = default_post_process_providers();
    let ids: Vec<&str> = providers.iter().map(|p| p.id.as_str()).collect();
    assert_eq!(ids, vec!["openai", "openrouter", "anthropic", "groq", "cerebras", "custom"]);
    assert!(providers[5].allow_base_url_edit);
    assert!(!providers[0].allow_base_url_edit);
    assert_eq!(providers[0].label, "OpenAI");
    assert_eq!(providers[0].base_url, "https://api.openai.com/v1");
    assert_eq!(providers[5].base_url, "http://localhost:11434/v1");
    assert_eq!(providers[2].models_endpoint, Some("/models".to_string()));
}

#[test]
fn default_rewrite_prompt_has_the_output_placeholder() {
    let prompts = default_post_process_prompts();
    assert_eq!(prompts.len(), 1);
    assert_eq!(prompts[0].id, "default_improve_transcriptions");
    assert!(prompts[0].prompt.contains("${output}"));
    assert!(prompts[0].prompt.contains("twenty-five \u{2192} 25"));
}

#[test]
fn general_settings_defaults() {
    let g = GeneralSettings::with_language("en".to_string());
    assert!(g.push_to_talk);
    assert!(!g.start_hidden);
    assert!(!g.autostart_enabled);
    assert!(g.update_checks_enabled);
    assert!(!g.mute_while_recording);
    assert!(g.private_overlay);
    assert_eq!(g.app_language, "en");
}

#[test]
fn more_defaults() {
    assert!(!default_always_on_microphone());
    assert!(!default_debug_mode());
    assert!(!default_translate_to_english());
    assert!(!default_post_process_enabled());
    assert_eq!(default_post_process_provider_id(), "openai");
    assert_eq!(default_display_duration(), 0);
    assert_eq!(default_max_suggestions(), 3);
    assert_eq!(default_top_k(), 3);
    assert_eq!(default_embedding_model(), "nomic-embed-text");
    assert_eq!(default_ollama_model(), "");
    assert_eq!(
        default_system_prompt(),
        "You are a helpful AI assistant. Provide clear, concise, and accurate responses."
    );
    assert_ne!(PasteMethod::CtrlV, PasteMethod::Disabled);
    assert_ne!(OverlayPosition::Hidden, OverlayPosition::Bottom);
}

#[test]
fn default_bindings_follow_the_platform() {
    let keys = |platform: &str| -> Vec<(String, String)> {
        handy_core::settings::default_bindings(platform)
            .into_iter()
            .map(|b| {
                assert_eq!(b.default_binding, b.current_binding);
                (b.id, b.current_binding)
            })
            .collect()
    };
    let pair = |id: &str, k: &str| (id.to_string(), k.to_string());
    assert_eq!(
        keys("macos"),
        vec![
            pair("transcribe", "option+space"),
            pair("cancel", "escape"),
            pair("active_listening", "cmd+shift+l"),
            pair("ask_ai", "cmd+shift+a"),
            pair("toggle_overlay", "cmd+shift+h"),
        ]
    );
    assert_eq!(
        keys("linux"),
        vec![
            pair("transcribe", "ctrl+space"),
            pair("cancel", "escape"),
            pair("active_listening", "ctrl+shift+l"),
            pair("ask_ai", "ctrl+shift+a"),
            pair("toggle_overlay", "ctrl+shift+h"),
        ]
    );
    assert_eq!(keys("windows")[0], pair("transcribe", "ctrl+space"));
    assert_eq!(keys("freebsd")[0], pair("transcribe", "alt+space"));
    assert_eq!(keys("freebsd")[3], pair("ask_ai", "ctrl+shift+a"));
    let names: Vec<String> =
        handy_core::settings::default_bindings("linux").into_iter().map(|b| b.name).collect();
    assert_eq!(names, vec!["Transcribe", "Cancel", "Active Listening", "Ask AI", "Toggle Overlay"]);
}
