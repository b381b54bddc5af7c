use handy_core::active_listening::{ActionItem, MeetingSummary, SessionInsight};
use handy_core::summary::{
    export_summary_to_markdown, export_summary_to_text, extract_json_array, extract_json_object,
    full_transcript, session_duration_minutes,
};

fn summary() -> MeetingSummary {
    MeetingSummary {
        session_id: "al_1".to_string(),
        executive_summary: "We agreed to ship.".to_string(),
        decisions: vec!["Ship on Friday".to_string(), "Freeze the API".to_string()],
        action_items: vec![
            ActionItem {
                description: "Write the notes".to_string(),
                assignee: Some("Ann".to_string()),
                deadline: Some("Friday".to_string()),
            },
            ActionItem { description: "Book a room".to_string(), assignee: None, deadline: None },
            ActionItem {
                description: "Call the client".to_string(),
                assignee: None,
                deadline: Some("Monday".to_string()),
            },
        ],
        topics: vec![],
        follow_ups: vec!["Who tests?".to_string()],
        duration_minutes: 42,
        generated_at: 0,
    }
}

#[test]
fn summary_in_markdown() {
    assert_eq!(
        export_summary_to_markdown(&summary()),
        "# Meeting Summary\n\n**Duration:** 42 minutes\n\n## Executive Summary\n\nWe agreed to ship.\n\n\
         ## Key Decisions\n\n- Ship on Friday\n- Freeze the API\n\n\
         ## Action Items\n\n- [ ] Write the notes (@Ann) [Due: Friday]\n- [ ] Book a room\n- [ ] Call the client [Due: Monday]\n\n\
         ## Follow-up Questions\n\n- Who tests?\n\n"
    );
}

#[test]
fn summary_in_plain_text() {
    let eq = "=".repeat(50);
    let dash = "-".repeat(30);
    assert_eq!(
        export_summary_to_text(&summary()),
        format!(
            "MEETING SUMMARY\n{eq}\nDuration: 42 minutes\n\nEXECUTIVE SUMMARY\n{dash}\nWe agreed to ship.\n\n\
             KEY DECISIONS\n{dash}\n1. Ship on Friday\n2. Freeze the API\n\n\
             ACTION ITEMS\n{dash}\n1. Write the notes (Assignee: Ann) [Due: Friday]\n2. Book a room\n3. Call the client [Due: Monday]\n\n\
             FOLLOW-UP QUESTIONS\n{dash}\n1. Who tests?\n\n"
        )
    );
}

#[test]
fn summary_without_lists_has_no_sections() {
    let mut s = summary();
    s.decisions.clear();
    s.action_items.clear();
    s.follow_ups.clear();
    s.duration_minutes = 0;
    assert_eq!(
        export_summary_to_markdown(&s),
        "# Meeting Summary\n\n**Duration:** 0 minutes\n\n## Executive Summary\n\nWe agreed to ship.\n\n"
    );
    assert!(export_summary_to_text(&s).ends_with("We agreed to ship.\n\n"));
}

fn insight(text: &str) -> SessionInsight {
    SessionInsight {
        timestamp: 0,
        transcription: text.to_string(),
        insight: String::new(),
        duration_ms: 0,
        speaker_id: None,
        speaker_label: None,
    }
}

#[test]
fn full_transcript_joins_the_segments() {
    assert_eq!(full_transcript(&vec![]), "");
    assert_eq!(full_transcript(&vec![insight("one")]), "one");
    assert_eq!(full_transcript(&vec![insight("one"), insight(""), insight("three")]), "one\n\n\n\nthree");
}

#[test]
fn session_duration_in_minutes() {
    assert_eq!(session_duration_minutes(0, Some(60_000), 999), 1);
    assert_eq!(session_duration_minutes(0, Some(59_999), 999), 0);
    assert_eq!(session_duration_minutes(1000, None, 1000 + 30 * 60_000 + 5), 30);
    assert_eq!(session_duration_minutes(5000, Some(1000), 0), 0);
    assert_eq!(session_duration_minutes(i64::MIN, Some(i64::MAX), 0), u32::MAX);
}

#[test]
fn json_object_is_cut_out_of_the_answer() {
    assert_eq!(extract_json_object("Here you go:\n```json\n{\"a\": {\"b\": 1}}\n```"), "{\"a\": {\"b\": 1}}");
    assert_eq!(extract_json_object("{}"), "{}");
    assert_eq!(extract_json_object("no braces"), "no braces");
    assert_eq!(extract_json_object("only { open"), "only { open");
    assert_eq!(extract_json_object("} before {"), "} before {");
    assert_eq!(extract_json_object(""), "");
}

#[test]
fn json_array_is_cut_out_of_the_answer() {
    assert_eq!(extract_json_array("Items: [{\"task\": \"x\"}] done"), Some("[{\"task\": \"x\"}]".to_string()));
    assert_eq!(extract_json_array("[[1, 2], [3]] and [4]"), Some("[[1, 2], [3]]".to_string()));
    assert_eq!(extract_json_array("[]"), Some("[]".to_string()));
    assert_eq!(extract_json_array("] [1]"), Some("[1]".to_string()));
    assert_eq!(extract_json_array("no array"), None);
    assert_eq!(extract_json_array("[[1, 2]"), None);
    assert_eq!(extract_json_array(""), None);
}

#[test]
fn summary_is_read_out_of_the_answer() {
    let response = "Here is the summary:\n```json\n{\"executive_summary\": \"We agreed to \\\"ship\\\".\", \
        \"decisions\": [\"Ship on Friday\", 7, \"Freeze the API\"], \
        \"action_items\": [{\"description\": \"Write the notes\", \"assignee\": \"Ana\", \"deadline\": null}, \
        {\"assignee\": \"Bo\"}, {\"description\": \"Book a room\"}], \
        \"topics\": [], \"follow_ups\": \"none\"}\n```";
    let s = handy_core::summary::parse_summary_response(response, "al_7", 12, 1_700_000_000_000)
        .expect("the answer holds an object");
    assert_eq!(s.session_id, "al_7");
    assert_eq!(s.duration_minutes, 12);
    assert_eq!(s.generated_at, 1_700_000_000_000);
    assert_eq!(s.executive_summary, "We agreed to \"ship\".");
    assert_eq!(s.decisions, vec!["Ship on Friday".to_string(), "Freeze the API".to_string()]);
    assert_eq!(s.action_items.len(), 2);
    assert_eq!(s.action_items[0].description, "Write the notes");
    assert_eq!(s.action_items[0].assignee.as_deref(), Some("Ana"));
    assert_eq!(s.action_items[0].deadline, None);
    assert_eq!(s.action_items[1].description, "Book a room");
    assert_eq!(s.action_items[1].assignee, None);
    assert!(s.topics.is_empty());
    assert!(s.follow_ups.is_empty());
}

#[test]
fn summary_of_an_empty_object_has_the_stand_in_text() {
    let s = handy_core::summary::parse_summary_response("{}", "al_1", 0, 5).expect("an object");
    assert_eq!(s.executive_summary, "Summary not available");
    assert!(s.decisions.is_empty() && s.action_items.is_empty());
    let list = handy_core::summary::parse_summary_response("[1, 2]", "al_1", 0, 5).expect("JSON");
    assert_eq!(list.executive_summary, "Summary not available");
}

#[test]
fn summary_fails_where_the_answer_is_no_json() {
    let e = handy_core::summary::parse_summary_response("I cannot {do that", "al_1", 3, 5)
        .expect_err("no JSON");
    assert!(e.starts_with("Failed to parse summary JSON: "), "{}", e);
    assert!(e.ends_with(". Response: I cannot {do that"), "{}", e);
    assert!(e.len() > "Failed to parse summary JSON: . Response: I cannot {do that".len());
}

#[test]
fn json_members_are_read_as_text() {
    let json = "{\"a\": \"x\\ny\", \"b\": [\"p\", {\"c\": \"q\"}], \"n\": 3}";
    assert_eq!(handy_core::json::text_member(json, "a").as_deref(), Some("x\ny"));
    assert_eq!(handy_core::json::text_member(json, "n"), None);
    assert_eq!(handy_core::json::text_member(json, "zz"), None);
    assert_eq!(handy_core::json::text_member("not json", "a"), None);
    let items = handy_core::json::elements_member(json, "b").expect("an array");
    assert_eq!(items.len(), 2);
    assert_eq!(items[0], "\"p\"");
    assert_eq!(handy_core::json::text_member(&items[1], "c").as_deref(), Some("q"));
    assert_eq!(handy_core::json::elements_member(json, "a"), None);
}

#[test]
fn summary_is_made_of_the_reported_parts() {
    let raw = handy_core::summary::RawSummary {
        executive_summary: None,
        decisions: Some(vec![Some("One".to_string()), None, Some("Two".to_string())]),
        action_items: Some(vec![
            handy_core::summary::RawAction {
                description: None,
                assignee: Some("Ana".to_string()),
                deadline: None,
            },
            handy_core::summary::RawAction {
                description: Some("Call".to_string()),
                assignee: None,
                deadline: Some("Monday".to_string()),
            },
        ]),
        topics: None,
        follow_ups: Some(vec![]),
    };
    let s = handy_core::summary::summary_from_parts(&raw, "al_2", 4, 9);
    assert_eq!(s.executive_summary, "Summary not available");
    assert_eq!(s.decisions, vec!["One".to_string(), "Two".to_string()]);
    assert_eq!(s.action_items.len(), 1);
    assert_eq!(s.action_items[0].description, "Call");
    assert_eq!(s.action_items[0].deadline.as_deref(), Some("Monday"));
    assert!(s.topics.is_empty() && s.follow_ups.is_empty());
    assert_eq!((s.session_id.as_str(), s.duration_minutes, s.generated_at), ("al_2", 4, 9));
}
