use handy_core::ask_ai::conversations_beyond;
use handy_core::devices::effective_microphone_name;
use handy_core::settings::{default_quick_responses, QuickResponse};
use handy_core::suggestions::SuggestionsSettings;
use handy_core::summary::{summary_from_parts, summary_prompt, RawAction, RawSummary};
use handy_core::tasks::{
    action_items_prompt, normalize_action_item, normalize_action_items, RawActionItem,
};

fn raw(task: Option<&str>, assignee: Option<&str>, deadline: Option<&str>, priority: Option<&str>) -> RawActionItem {
    RawActionItem {
        task: task.map(String::from),
        assignee: assignee.map(String::from),
        deadline: deadline.map(String::from),
        priority: priority.map(String::from),
    }
}

#[test]
fn action_item_is_made_of_what_the_model_reports() {
    let item = normalize_action_item(
        &raw(Some("Send the report"), Some("John"), Some("Friday"), Some("HIGH")),
        7,
        "2024-01-01T00:00:00+00:00",
    )
    .unwrap();
    assert_eq!(item.id, 0);
    assert_eq!(item.entry_id, 7);
    assert_eq!(item.task, "Send the report");
    assert_eq!(item.assignee, Some("John".to_string()));
    assert_eq!(item.deadline, Some("Friday".to_string()));
    assert_eq!(item.priority, "high");
    assert!(!item.completed);
    assert_eq!(item.created_at, "2024-01-01T00:00:00+00:00");
}

#[test]
fn action_item_without_a_task_is_dropped() {
    assert!(normalize_action_item(&raw(None, Some("John"), None, None), 1, "now").is_none());
    assert!(normalize_action_item(&raw(Some("  \n"), None, None, None), 1, "now").is_none());
    assert!(normalize_action_item(&raw(Some(""), None, None, None), 1, "now").is_none());
}

#[test]
fn action_item_blank_parts_count_as_missing() {
    let item = normalize_action_item(&raw(Some(" Call "), Some(" "), Some(""), None), 1, "now").unwrap();
    assert_eq!(item.task, " Call ");
    assert_eq!(item.assignee, None);
    assert_eq!(item.deadline, None);
    assert_eq!(item.priority, "medium");
}

#[test]
fn action_items_keep_their_order() {
    let raws = vec![
        raw(Some("a"), None, None, Some("Low")),
        raw(None, None, None, None),
        raw(Some("b"), None, None, None),
    ];
    let items = normalize_action_items(&raws, 3, "t");
    let tasks: Vec<&str> = items.iter().map(|i| i.task.as_str()).collect();
    assert_eq!(tasks, vec!["a", "b"]);
    assert_eq!(items[0].priority, "low");
    assert!(items.iter().all(|i| i.entry_id == 3));
    assert!(normalize_action_items(&vec![], 3, "t").is_empty());
}

#[test]
fn action_items_prompt_ends_with_the_transcript() {
    let prompt = action_items_prompt("We ship on Friday.");
    assert!(prompt.starts_with("Analyze this transcript and extract action items."));
    assert!(prompt.contains("[{\"task\": \"Send the report\", \"assignee\": \"John\", \"deadline\": \"Friday\", \"priority\": \"high\"}]"));
    assert!(prompt.ends_with("Transcript:\nWe ship on Friday."));
}

#[test]
fn summary_is_made_of_the_report() {
    let report = RawSummary {
        executive_summary: None,
        decisions: Some(vec![Some("Ship".to_string()), None, Some("Freeze".to_string())]),
        action_items: Some(vec![
            RawAction { description: None, assignee: Some("Ann".to_string()), deadline: None },
            RawAction {
                description: Some("Write notes".to_string()),
                assignee: None,
                deadline: Some("Friday".to_string()),
            },
        ]),
        topics: None,
        follow_ups: Some(vec![]),
    };
    let summary = summary_from_parts(&report, "al_1", 12, 99);
    assert_eq!(summary.session_id, "al_1");
    assert_eq!(summary.executive_summary, "Summary not available");
    assert_eq!(summary.decisions, vec!["Ship", "Freeze"]);
    assert_eq!(summary.action_items.len(), 1);
    assert_eq!(summary.action_items[0].description, "Write notes");
    assert_eq!(summary.action_items[0].assignee, None);
    assert_eq!(summary.action_items[0].deadline, Some("Friday".to_string()));
    assert!(summary.topics.is_empty());
    assert!(summary.follow_ups.is_empty());
    assert_eq!(summary.duration_minutes, 12);
    assert_eq!(summary.generated_at, 99);
    let full = RawSummary {
        executive_summary: Some("All good.".to_string()),
        decisions: None,
        action_items: None,
        topics: Some(vec![Some("Budget".to_string())]),
        follow_ups: None,
    };
    let summary = summary_from_parts(&full, "s", 0, 0);
    assert_eq!(summary.executive_summary, "All good.");
    assert_eq!(summary.topics, vec!["Budget"]);
    assert!(summary.action_items.is_empty());
}

#[test]
fn summary_prompt_names_topic_and_duration() {
    let prompt = summary_prompt(Some("Budget"), 42, "one\n\ntwo");
    assert!(prompt.starts_with(
        "Analyze this meeting transcript and provide a structured summary.\n\nMeeting Topic: Budget\nDuration: 42 minutes\nTranscript:\none\n\ntwo\n\nProvide a comprehensive summary in the following JSON format:\n{\n  \"executive_summary\""
    ));
    assert!(prompt.ends_with("- Return valid JSON only"));
    assert!(summary_prompt(None, 0, "").contains("Meeting Topic: Meeting\nDuration: 0 minutes"));
}

#[test]
fn old_conversations_are_those_behind_the_kept_ones() {
    let ids: Vec<String> = ["e", "d", "c", "b", "a"].iter().map(|s| s.to_string()).collect();
    assert_eq!(conversations_beyond(&ids, 2), vec!["c", "b", "a"]);
    assert_eq!(conversations_beyond(&ids, 0), ids);
    assert!(conversations_beyond(&ids, 5).is_empty());
    assert!(conversations_beyond(&ids, 9).is_empty());
    assert!(conversations_beyond(&vec![], 0).is_empty());
}

#[test]
fn microphone_for_a_closed_lid() {
    assert_eq!(effective_microphone_name(Some(true), Some("USB"), Some("Built-in")), Some("USB".to_string()));
    assert_eq!(effective_microphone_name(Some(true), None, Some("Built-in")), Some("Built-in".to_string()));
    assert_eq!(effective_microphone_name(Some(false), Some("USB"), Some("Built-in")), Some("Built-in".to_string()));
    assert_eq!(effective_microphone_name(None, Some("USB"), Some("Built-in")), Some("Built-in".to_string()));
    assert_eq!(effective_microphone_name(Some(true), Some("USB"), None), Some("USB".to_string()));
    assert_eq!(effective_microphone_name(Some(false), Some("USB"), None), None);
}

fn response(id: &str, enabled: bool) -> QuickResponse {
    QuickResponse {
        id: id.to_string(),
        name: format!("Name of {}", id),
        trigger_phrases: vec!["hello".to_string()],
        category: "custom".to_string(),
        response_template: "Hi".to_string(),
        enabled,
        created_at: 1,
    }
}

fn ids(settings: &SuggestionsSettings) -> Vec<String> {
    settings.quick_responses.iter().map(|q| q.id.clone()).collect()
}

#[test]
fn quick_responses_are_added_once() {
    let mut settings = SuggestionsSettings::default();
    assert_eq!(settings.add_quick_response(response("mine", true)), Ok(()));
    assert_eq!(settings.quick_responses.len(), 8);
    assert_eq!(settings.quick_responses[7].id, "mine");
    assert_eq!(
        settings.add_quick_response(response("mine", false)),
        Err("Quick response with this ID already exists".to_string())
    );
    assert_eq!(settings.quick_responses.len(), 8);
    assert!(settings.quick_responses[7].enabled);
}

#[test]
fn quick_responses_are_updated_in_place() {
    let mut settings = SuggestionsSettings::default();
    let mut changed = response("qr_weakness", false);
    changed.name = "Changed".to_string();
    assert_eq!(settings.update_quick_response(changed), Ok(()));
    assert_eq!(settings.quick_responses[5].name, "Changed");
    assert!(!settings.quick_responses[5].enabled);
    assert_eq!(settings.quick_responses.len(), 7);
    assert_eq!(
        settings.update_quick_response(response("gone", true)),
        Err("Quick response not found".to_string())
    );
}

#[test]
fn quick_responses_are_deleted_by_id() {
    let mut settings = SuggestionsSettings::default();
    settings.quick_responses = vec![response("a", true), response("b", true), response("a", false)];
    assert_eq!(settings.delete_quick_response("a"), Ok(()));
    assert_eq!(ids(&settings), vec!["b"]);
    assert_eq!(settings.delete_quick_response("a"), Err("Quick response not found".to_string()));
    assert_eq!(ids(&settings), vec!["b"]);
    assert_eq!(settings.delete_quick_response("b"), Ok(()));
    assert!(settings.quick_responses.is_empty());
}

#[test]
fn quick_responses_are_toggled() {
    let mut settings = SuggestionsSettings::default();
    settings.quick_responses = default_quick_responses();
    assert_eq!(settings.toggle_quick_response("qr_too_expensive"), Ok(false));
    assert!(!settings.quick_responses[0].enabled);
    assert_eq!(settings.quick_responses[0].name, "Too Expensive");
    assert_eq!(settings.quick_responses[0].trigger_phrases.len(), 5);
    assert_eq!(settings.toggle_quick_response("qr_too_expensive"), Ok(true));
    assert!(settings.quick_responses[0].enabled);
    assert_eq!(settings.toggle_quick_response("gone"), Err("Quick response not found".to_string()));
    assert_eq!(settings.quick_responses.len(), 7);
    assert_eq!(settings.quick_responses[1].id, "qr_competitor_cheaper");
}
