use handy_core::settings::{default_quick_responses, QuickResponse};
use handy_core::suggestions::{
    contains_text, ensure_suggestions_defaults, limit_matches, match_quick_responses,
    KeywordMatch, SuggestionsSettings,
};

fn chars(s: &str) -> Vec<char> {
    s.chars().collect()
}

#[test]
fn suggestions_test_default_settings() {
    let settings = SuggestionsSettings::default();

    assert!(!settings.enabled);
    assert!(settings.rag_suggestions_enabled);
    assert!(settings.llm_suggestions_enabled);
    assert_eq!(settings.max_suggestions, 3);
    assert!(settings.auto_dismiss_on_copy);
    assert_eq!(settings.display_duration_seconds, 0);
    assert!(!settings.quick_responses.is_empty());
}

#[test]
fn test_get_quick_response() {
    let settings = SuggestionsSettings::default();

    let qr = settings.get_quick_response("qr_too_expensive");
    assert!(qr.is_some());
    assert_eq!(qr.unwrap().name, "Too Expensive");

    let nonexistent = settings.get_quick_response("nonexistent");
    assert!(nonexistent.is_none());
}

#[test]
fn test_get_enabled_quick_responses() {
    let mut settings = SuggestionsSettings::default();

    for qr in settings.quick_responses.iter_mut() {
        if qr.id == "qr_too_expensive" {
            qr.enabled = false;
        }
    }

    let enabled = settings.get_enabled_quick_responses();
    assert!(!enabled.iter().any(|qr| qr.id == "qr_too_expensive"));
    assert_eq!(enabled.len(), 6);
}

#[test]
fn test_get_quick_responses_by_category() {
    let settings = SuggestionsSettings::default();

    let pricing = settings.get_quick_responses_by_category("pricing");
    assert!(!pricing.is_empty());
    assert!(pricing.iter().all(|qr| qr.category == "pricing"));
    assert_eq!(pricing.len(), 2);

    let interview = settings.get_quick_responses_by_category("interview");
    assert!(!interview.is_empty());
    assert!(settings.get_quick_responses_by_category("none").is_empty());
}

#[test]
fn test_ensure_defaults() {
    let mut settings = SuggestionsSettings::default();
    settings.quick_responses.clear();

    let changed = ensure_suggestions_defaults(&mut settings);

    assert!(changed);
    assert!(!settings.quick_responses.is_empty());
    assert_eq!(settings.quick_responses.len(), 7);
}

#[test]
fn test_ensure_defaults_no_change() {
    let mut settings = SuggestionsSettings::default();

    let changed = ensure_suggestions_defaults(&mut settings);

    assert!(!changed);
    assert_eq!(settings.quick_responses.len(), 7);
}

#[test]
fn ensure_defaults_adds_only_what_is_missing_behind_what_is_there() {
    let mut settings = SuggestionsSettings::default();
    let custom = QuickResponse {
        id: "mine".to_string(),
        name: "Mine".to_string(),
        trigger_phrases: vec!["hello".to_string()],
        category: "custom".to_string(),
        response_template: "Hi".to_string(),
        enabled: true,
        created_at: 5,
    };
    let kept = settings.quick_responses.remove(2);
    settings.quick_responses = vec![custom, kept];
    assert!(ensure_suggestions_defaults(&mut settings));
    let ids: Vec<&str> = settings.quick_responses.iter().map(|q| q.id.as_str()).collect();
    assert_eq!(
        ids,
        vec![
            "mine",
            "qr_not_right_time",
            "qr_too_expensive",
            "qr_competitor_cheaper",
            "qr_need_to_think",
            "qr_check_with_team",
            "qr_weakness",
            "qr_final_offer"
        ]
    );
    assert_eq!(settings.quick_responses[0].created_at, 5);
}

#[test]
fn contains_text_finds_a_stretch() {
    assert!(contains_text(&chars("that is too expensive for us"), &chars("too expensive")));
    assert!(contains_text(&chars("abc"), &chars("")));
    assert!(contains_text(&chars(""), &chars("")));
    assert!(contains_text(&chars("abc"), &chars("abc")));
    assert!(contains_text(&chars("aab"), &chars("ab")));
    assert!(!contains_text(&chars("abc"), &chars("abcd")));
    assert!(!contains_text(&chars("abc"), &chars("ac")));
    assert!(!contains_text(&chars(""), &chars("a")));
}

#[test]
fn quick_responses_match_whatever_the_case() {
    let responses = default_quick_responses();
    let matches = match_quick_responses("Honestly, this is TOO Expensive. Maybe later?", &responses);
    assert_eq!(
        matches,
        vec![
            KeywordMatch { response_index: 0, phrase_index: 0 },
            KeywordMatch { response_index: 2, phrase_index: 2 },
        ]
    );
    assert_eq!(responses[2].trigger_phrases[2], "maybe later");
    assert!(match_quick_responses("nothing of note", &responses).is_empty());
    assert!(match_quick_responses("", &responses).is_empty());
}

#[test]
fn quick_responses_that_are_disabled_do_not_match() {
    let mut responses = default_quick_responses();
    responses[0].enabled = false;
    let matches = match_quick_responses("too expensive and over budget", &responses);
    assert!(matches.is_empty());
    responses[0].enabled = true;
    responses[0].trigger_phrases = vec!["never said".to_string(), "OVER BUDGET".to_string()];
    assert_eq!(
        match_quick_responses("we are over budget", &responses),
        vec![KeywordMatch { response_index: 0, phrase_index: 1 }]
    );
}

#[test]
fn matches_are_limited_to_the_first_ones() {
    let all = vec![
        KeywordMatch { response_index: 0, phrase_index: 0 },
        KeywordMatch { response_index: 3, phrase_index: 1 },
        KeywordMatch { response_index: 4, phrase_index: 0 },
    ];
    assert_eq!(limit_matches(all.clone(), 2), all[..2].to_vec());
    assert_eq!(limit_matches(all.clone(), 3), all);
    assert_eq!(limit_matches(all.clone(), 9), all);
    assert!(limit_matches(all, 0).is_empty());
}
