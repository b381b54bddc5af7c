use handy_core::listening_settings::{
    ensure_active_listening_defaults, ActiveListeningSettings, PromptError,
};
use handy_core::settings::{ActiveListeningPrompt, AudioSourceType, PromptCategory};

#[test]
fn active_listening_test_default_settings() {
    let settings = ActiveListeningSettings::default();

    assert!(!settings.enabled);
    assert_eq!(settings.segment_duration_seconds, 15);
    assert_eq!(settings.ollama_base_url, "http://localhost:11434");
    assert!(settings.ollama_model.is_empty());
    assert_eq!(settings.context_window_size, 3);
    assert_eq!(settings.prompts.len(), 7); // 2 note-taking + 5 meeting coach
    assert_eq!(
        settings.selected_prompt_id,
        Some("default_meeting_notes".to_string())
    );
}

#[test]
fn test_get_selected_prompt() {
    let settings = ActiveListeningSettings::default();
    let selected = settings.get_selected_prompt();

    assert!(selected.is_some());
    assert_eq!(selected.unwrap().id, "default_meeting_notes");
}

#[test]
fn test_get_selected_prompt_none() {
    let mut settings = ActiveListeningSettings::default();
    settings.selected_prompt_id = None;

    assert!(settings.get_selected_prompt().is_none());
}

#[test]
fn test_get_selected_prompt_invalid_id() {
    let mut settings = ActiveListeningSettings::default();
    settings.selected_prompt_id = Some("nonexistent".to_string());

    assert!(settings.get_selected_prompt().is_none());
}

#[test]
fn test_get_prompt() {
    let settings = ActiveListeningSettings::default();

    let meeting = settings.get_prompt("default_meeting_notes");
    assert!(meeting.is_some());
    assert_eq!(meeting.unwrap().name, "Meeting Notes");

    let action = settings.get_prompt("default_action_items");
    assert!(action.is_some());
    assert_eq!(action.unwrap().name, "Action Items");

    let nonexistent = settings.get_prompt("nonexistent");
    assert!(nonexistent.is_none());
}

#[test]
fn test_ensure_defaults_no_change_when_complete() {
    let mut settings = ActiveListeningSettings::default();
    let changed = ensure_active_listening_defaults(&mut settings);

    assert!(!changed);
    assert_eq!(settings.prompts.len(), 7); // 2 note-taking + 5 meeting coach
}

#[test]
fn test_ensure_defaults_adds_missing_prompts() {
    let mut settings = ActiveListeningSettings::default();
    settings.prompts.clear();
    settings.selected_prompt_id = Some("custom".to_string());

    let changed = ensure_active_listening_defaults(&mut settings);

    assert!(changed);
    assert_eq!(settings.prompts.len(), 7); // All default prompts added
}

#[test]
fn test_ensure_defaults_sets_selected_when_none() {
    let mut settings = ActiveListeningSettings::default();
    settings.selected_prompt_id = None;

    let changed = ensure_active_listening_defaults(&mut settings);

    assert!(changed);
    assert!(settings.selected_prompt_id.is_some());
}

#[test]
fn test_ensure_defaults_with_custom_prompts() {
    let mut settings = ActiveListeningSettings::default();
    settings.prompts = vec![ActiveListeningPrompt {
        id: "custom_prompt".to_string(),
        name: "Custom".to_string(),
        prompt_template: "Test template".to_string(),
        created_at: 12345,
        is_default: false,
        category: PromptCategory::Custom,
    }];
    settings.selected_prompt_id = Some("custom_prompt".to_string());

    let changed = ensure_active_listening_defaults(&mut settings);

    assert!(changed);
    assert_eq!(settings.prompts.len(), 8); // 1 custom + 7 defaults
    assert_eq!(settings.selected_prompt_id, Some("custom_prompt".to_string()));
}


#[test]
fn default_settings_use_the_microphone() {
    let settings = ActiveListeningSettings::default();
    assert_eq!(settings.audio_source_type, AudioSourceType::Microphone);
}

#[test]
fn ensure_defaults_selects_the_first_prompt_that_is_there() {
    let mut settings = ActiveListeningSettings::default();
    settings.prompts.swap(0, 3);
    settings.selected_prompt_id = None;
    assert!(ensure_active_listening_defaults(&mut settings));
    assert_eq!(settings.selected_prompt_id, Some("meeting_coach_sales".to_string()));
    assert_eq!(settings.prompts.len(), 7);
    assert!(!ensure_active_listening_defaults(&mut settings));
}

#[test]
fn insight_template_is_the_selected_prompt_or_a_plain_request() {
    let mut settings = ActiveListeningSettings::default();
    assert!(settings.insight_template().starts_with("Analyze this conversation segment"));
    settings.selected_prompt_id = Some("gone".to_string());
    assert_eq!(settings.insight_template(), "Summarize: {{transcription}}");
    settings.selected_prompt_id = None;
    assert_eq!(settings.insight_template(), "Summarize: {{transcription}}");
}

#[test]
fn prompts_are_added_updated_selected_and_deleted() {
    let mut settings = ActiveListeningSettings::default();
    let id = settings.add_prompt("Mine".to_string(), "Say {{transcription}}".to_string(), 1700);
    assert_eq!(id, "al_prompt_1700");
    assert_eq!(settings.prompts.len(), 8);
    let added = settings.get_prompt(&id).unwrap();
    assert_eq!(added.name, "Mine");
    assert_eq!(added.created_at, 1700);
    assert!(!added.is_default);
    assert_eq!(added.category, PromptCategory::Custom);

    assert_eq!(settings.update_prompt(&id, "Yours".to_string(), "T".to_string()), Ok(()));
    assert_eq!(settings.get_prompt(&id).unwrap().name, "Yours");
    assert_eq!(settings.get_prompt(&id).unwrap().prompt_template, "T");
    assert_eq!(settings.get_prompt(&id).unwrap().created_at, 1700);
    assert_eq!(
        settings.update_prompt("gone", "x".to_string(), "y".to_string()),
        Err(PromptError::NotFound("gone".to_string()))
    );

    assert_eq!(settings.set_selected_prompt(&id), Ok(()));
    assert_eq!(settings.selected_prompt_id, Some(id.clone()));
    let missing = settings.set_selected_prompt("gone").unwrap_err();
    assert_eq!(missing.to_string(), "Prompt not found: gone");
    assert_eq!(settings.selected_prompt_id, Some(id.clone()));

    assert_eq!(settings.delete_prompt("default_meeting_notes"), Err(PromptError::DefaultPrompt));
    assert_eq!(PromptError::DefaultPrompt.to_string(), "Cannot delete default prompts");
    assert_eq!(settings.delete_prompt(&id), Ok(()));
    assert_eq!(settings.prompts.len(), 7);
    // the deleted prompt was selected: the first prompt takes its place
    assert_eq!(settings.selected_prompt_id, Some("default_meeting_notes".to_string()));
    // deleting what is not there changes nothing
    assert_eq!(settings.delete_prompt("gone"), Ok(()));
    assert_eq!(settings.prompts.len(), 7);
}

#[test]
fn the_last_prompt_cannot_be_deleted() {
    let mut settings = ActiveListeningSettings::default();
    settings.prompts = vec![ActiveListeningPrompt {
        id: "only".to_string(),
        name: "Only".to_string(),
        prompt_template: "T".to_string(),
        created_at: 1,
        is_default: false,
        category: PromptCategory::Custom,
    }];
    assert_eq!(settings.delete_prompt("only"), Err(PromptError::LastPrompt));
    assert_eq!(PromptError::LastPrompt.to_string(), "Cannot delete the last prompt");
    assert_eq!(settings.prompts.len(), 1);
    settings.prompts.clear();
    assert_eq!(settings.delete_prompt("only"), Err(PromptError::LastPrompt));
}
