use handy_core::transcription::TranscriptionError;
use handy_core::ask_ai::{
    AskAiConversation, AskAiManager, AskAiResponseEvent, AskAiState, AskAiStateEvent, AskAiStep,
    ConversationTurn, MAX_CONTEXT_TURNS,
};

#[test]
fn test_conversation_new_creates_unique_id() {
    let conv1 = AskAiConversation::new();
    let conv2 = AskAiConversation::new();

    assert!(!conv1.id.is_empty());
    assert!(!conv2.id.is_empty());
    assert_ne!(conv1.id, conv2.id);
}

#[test]
fn test_conversation_new_has_empty_turns() {
    let conv = AskAiConversation::new();

    assert!(conv.turns.is_empty());
    assert!(conv.title.is_none());
}

#[test]
fn test_conversation_new_sets_timestamps() {
    let before = chrono::Utc::now().timestamp();
    let conv = AskAiConversation::new();
    let after = chrono::Utc::now().timestamp();

    assert!(conv.created_at >= before && conv.created_at <= after);
    assert!(conv.updated_at >= before && conv.updated_at <= after);
}

#[test]
fn test_add_turn_sets_title_from_first_question() {
    let mut conv = AskAiConversation::new();

    conv.add_turn("What is Rust?".to_string(), "A programming language.".to_string(), None);

    assert_eq!(conv.title, Some("What is Rust?".to_string()));
    assert_eq!(conv.turns.len(), 1);
}

#[test]
fn test_add_turn_truncates_long_title() {
    let mut conv = AskAiConversation::new();

    let long_question = "This is a very long question that should be truncated to 47 characters plus ellipsis to make exactly 50";
    conv.add_turn(long_question.to_string(), "Response".to_string(), None);

    let title = conv.title.as_ref().unwrap();
    assert!(title.len() == 50);
    assert!(title.ends_with("..."));
}

#[test]
fn test_add_turn_does_not_overwrite_title() {
    let mut conv = AskAiConversation::new();

    conv.add_turn("First question".to_string(), "First response".to_string(), None);
    conv.add_turn("Second question".to_string(), "Second response".to_string(), None);

    assert_eq!(conv.title, Some("First question".to_string()));
    assert_eq!(conv.turns.len(), 2);
}

#[test]
fn test_add_turn_updates_timestamp() {
    let mut conv = AskAiConversation::new();
    let initial_updated_at = conv.updated_at;

    conv.add_turn("Question".to_string(), "Response".to_string(), None);

    assert!(conv.updated_at >= initial_updated_at);
}

#[test]
fn test_add_turn_stores_audio_file_name() {
    let mut conv = AskAiConversation::new();

    conv.add_turn(
        "Question".to_string(),
        "Response".to_string(),
        Some("audio_123.wav".to_string()),
    );

    assert_eq!(
        conv.turns[0].audio_file_name,
        Some("audio_123.wav".to_string())
    );
}

#[test]
fn test_build_context_empty_conversation() {
    let conv = AskAiConversation::new();

    let context = conv.build_context();

    assert!(context.is_empty());
}

#[test]
fn test_build_context_single_turn() {
    let mut conv = AskAiConversation::new();
    conv.add_turn("Hello".to_string(), "Hi there!".to_string(), None);

    let context = conv.build_context();

    assert!(context.contains("User: Hello"));
    assert!(context.contains("Assistant: Hi there!"));
}

#[test]
fn test_build_context_multiple_turns() {
    let mut conv = AskAiConversation::new();
    conv.add_turn("Question 1".to_string(), "Answer 1".to_string(), None);
    conv.add_turn("Question 2".to_string(), "Answer 2".to_string(), None);

    let context = conv.build_context();

    assert!(context.contains("User: Question 1"));
    assert!(context.contains("Assistant: Answer 1"));
    assert!(context.contains("User: Question 2"));
    assert!(context.contains("Assistant: Answer 2"));
}

#[test]
fn test_build_context_respects_max_context_turns() {
    let mut conv = AskAiConversation::new();

    // Add more than MAX_CONTEXT_TURNS turns
    for i in 0..(MAX_CONTEXT_TURNS + 5) {
        conv.add_turn(format!("Question {}", i), format!("Answer {}", i), None);
    }

    let context = conv.build_context();

    // Should NOT contain early turns
    assert!(!context.contains("Question 0"));
    assert!(!context.contains("Question 4"));

    // Should contain the last MAX_CONTEXT_TURNS turns
    let last_turn_index = MAX_CONTEXT_TURNS + 5 - 1;
    assert!(context.contains(&format!("Question {}", last_turn_index)));
}

#[test]
fn test_generate_title_short_question() {
    let title = AskAiConversation::generate_title("Short question");
    assert_eq!(title, "Short question");
}

#[test]
fn test_generate_title_exactly_50_chars() {
    let question = "x".repeat(50);
    let title = AskAiConversation::generate_title(&question);
    assert_eq!(title.len(), 50);
    assert!(!title.ends_with("..."));
}

#[test]
fn test_generate_title_over_50_chars() {
    let question = "x".repeat(60);
    let title = AskAiConversation::generate_title(&question);
    assert_eq!(title.len(), 50);
    assert!(title.ends_with("..."));
}

#[test]
fn test_generate_title_trims_whitespace() {
    let title = AskAiConversation::generate_title("  Hello world  ");
    assert_eq!(title, "Hello world");
}

#[test]
fn ask_ai_test_default_state_is_idle() {
    let state = AskAiState::default();
    assert_eq!(state, AskAiState::Idle);
}

#[test]
fn test_conversation_turn_id_is_unique() {
    let mut conv = AskAiConversation::new();
    conv.add_turn("Q1".to_string(), "A1".to_string(), None);
    conv.add_turn("Q2".to_string(), "A2".to_string(), None);

    assert_ne!(conv.turns[0].id, conv.turns[1].id);
}

#[test]
fn add_turn_at_stamps_turns_in_order() {
    let mut conv = AskAiConversation::with_id("c1".to_string(), 100);
    conv.add_turn_at("q1".into(), "a1".into(), None, "t1".into(), 200);
    conv.add_turn_at("q2".into(), "a2".into(), Some("x.wav".into()), "t2".into(), 150);
    conv.add_turn_at("q3".into(), "a3".into(), None, "t3".into(), 300);
    let stamps: Vec<i64> = conv.turns.iter().map(|t| t.timestamp).collect();
    assert_eq!(stamps, vec![200, 200, 300]);
    assert_eq!(conv.updated_at, 300);
    assert_eq!(conv.created_at, 100);
    assert_eq!(conv.id, "c1");
    assert_eq!(conv.turns[1].id, "t2");
    assert_eq!(conv.turns[1].audio_file_name, Some("x.wav".to_string()));
    assert_eq!(conv.title, Some("q1".to_string()));
}

#[test]
fn build_context_formats_each_turn() {
    let mut conv = AskAiConversation::with_id("c".into(), 0);
    conv.add_turn_at("what is two plus two".into(), "4".into(), None, "t1".into(), 1);
    assert_eq!(conv.build_context(), "User: what is two plus two\nAssistant: 4\n\n");
    conv.add_turn_at("and times three".into(), "12".into(), None, "t2".into(), 2);
    assert_eq!(
        conv.build_context(),
        "User: what is two plus two\nAssistant: 4\n\nUser: and times three\nAssistant: 12\n\n"
    );
}

#[test]
fn build_context_feeds_exactly_the_last_ten_turns() {
    let mut conv = AskAiConversation::with_id("c".into(), 0);
    for i in 0..13 {
        conv.add_turn_at(format!("Q{}", i), format!("A{}", i), None, format!("t{}", i), i);
    }
    let mut expected = String::new();
    for i in 3..13 {
        expected.push_str(&format!("User: Q{}\nAssistant: A{}\n\n", i, i));
    }
    assert_eq!(conv.build_context(), expected);
    assert_eq!(conv.build_context().matches("User: ").count(), 10);
}

#[test]
fn generate_title_counts_characters() {
    let question = "é".repeat(60);
    let title = AskAiConversation::generate_title(&question);
    assert_eq!(title.chars().count(), 50);
    assert_eq!(title, format!("{}...", "é".repeat(47)));
    assert_eq!(AskAiConversation::generate_title("   "), "");
    assert_eq!(AskAiConversation::generate_title(""), "");
    let fifty_one = "y".repeat(51);
    assert_eq!(AskAiConversation::generate_title(&fifty_one), format!("{}...", "y".repeat(47)));
}

fn event_of(step: AskAiStep) -> AskAiStateEvent {
    match step {
        AskAiStep::Fail(e) => e,
        AskAiStep::Proceed(e) => e,
        AskAiStep::Stop => panic!("the step stopped"),
    }
}

#[test]
fn ask_ai_multi_turn_conversation() {
    let mut m = AskAiManager::new();
    assert_eq!(m.get_state(), AskAiState::Idle);
    assert!(!m.is_active());
    assert!(m.can_start_recording());
    let ev = m.start_recording().unwrap();
    assert_eq!(ev.state, AskAiState::Recording);
    assert!(ev.conversation.unwrap().turns.is_empty());
    assert_eq!(m.get_state(), AskAiState::Recording);
    assert!(m.is_active());
    assert_eq!(m.start_recording().unwrap_err(), "Ask AI session busy");

    let ev = event_of(m.process_question(vec![1, 2, 3]));
    assert_eq!(ev.state, AskAiState::Transcribing);
    assert_eq!(m.get_state(), AskAiState::Transcribing);

    let ev = event_of(m.on_transcription(Ok("what is two plus two".to_string()), "m"));
    assert_eq!(ev.state, AskAiState::Generating);
    assert_eq!(ev.question, Some("what is two plus two".to_string()));
    assert_eq!(m.get_question(), Some("what is two plus two".to_string()));
    assert_eq!(m.build_prompt("what is two plus two", ""), "User: what is two plus two");

    assert!(m.on_chunk("4"));
    assert_eq!(m.get_response(), "4");
    let step = m.on_generated(Ok(()), "4".to_string(), "turn-1".to_string(), 10);
    let ev = event_of(step);
    assert_eq!(ev.state, AskAiState::Complete);
    assert_eq!(m.get_state(), AskAiState::Complete);
    let conv = m.get_conversation().unwrap();
    assert_eq!(conv.turns.len(), 1);
    assert_eq!(conv.title, Some("what is two plus two".to_string()));

    // the follow-up keeps the conversation
    let id_before = conv.id.clone();
    m.start_recording().unwrap();
    assert_eq!(m.get_response(), "");
    assert_eq!(m.get_question(), None);
    m.process_question(vec![9]);
    m.on_transcription(Ok("and times three".to_string()), "m");
    let prompt = m.build_prompt("and times three", "");
    assert!(prompt.contains(
        "User: what is two plus two\nAssistant: 4\n\nUser: and times three"
    ));
    assert_eq!(prompt, "User: what is two plus two\nAssistant: 4\n\nUser: and times three");
    assert!(m.on_chunk("1"));
    assert!(m.on_chunk("2"));
    assert_eq!(m.get_response(), "12");
    m.on_generated(Ok(()), "12".to_string(), "turn-2".to_string(), 20);
    let conv = m.get_conversation().unwrap();
    assert_eq!(conv.id, id_before);
    assert_eq!(conv.turns.len(), 2);
    assert_eq!(conv.turns[1].question, "and times three");
    assert_eq!(conv.turns[1].response, "12");
    assert_eq!(conv.title, Some("what is two plus two".to_string()));
}

#[test]
fn ask_ai_prompt_carries_the_system_prompt() {
    let m = AskAiManager::new();
    assert_eq!(m.build_prompt("hi", "Be brief."), "System: Be brief.\n\nUser: hi");
}

#[test]
fn ask_ai_cancel_mid_stream_adds_no_turn() {
    let mut m = AskAiManager::new();
    m.start_recording().unwrap();
    m.process_question(vec![1]);
    m.on_transcription(Ok("question".to_string()), "m");
    assert!(m.on_chunk("par"));
    m.cancel();
    assert!(m.is_cancelled());
    assert_eq!(m.get_state(), AskAiState::Idle);
    assert!(!m.on_chunk("tial"));
    assert!(matches!(
        m.on_generated(Ok(()), "partial".to_string(), "t".to_string(), 5),
        AskAiStep::Stop
    ));
    assert_eq!(m.get_state(), AskAiState::Idle);
    assert!(m.get_conversation().is_none());
    assert!(matches!(m.on_transcription(Ok("late".to_string()), "m"), AskAiStep::Stop));
    // a new recording clears the cancellation
    m.start_recording().unwrap();
    assert!(!m.is_cancelled());
}

#[test]
fn ask_ai_errors_come_to_rest() {
    let mut m = AskAiManager::new();
    m.start_recording().unwrap();
    let ev = event_of(m.process_question(vec![]));
    assert_eq!(ev.state, AskAiState::Error);
    assert_eq!(ev.error, Some("No audio recorded".to_string()));
    assert_eq!(m.get_state(), AskAiState::Idle);
    assert!(m.get_conversation().is_none());

    m.start_recording().unwrap();
    m.process_question(vec![1]);
    let ev = event_of(
        m.on_transcription(Err(TranscriptionError::DecodeFailed("boom".to_string())), "m"),
    );
    assert_eq!(ev.error, Some("Transcription failed: Decode failed: boom".to_string()));
    assert_eq!(m.get_state(), AskAiState::Idle);

    // a cancelled transcription comes to rest without a report
    m.start_recording().unwrap();
    m.process_question(vec![1]);
    assert!(matches!(m.on_transcription(Err(TranscriptionError::Cancelled), "m"), AskAiStep::Stop));
    assert_eq!(m.get_state(), AskAiState::Idle);

    m.start_recording().unwrap();
    m.process_question(vec![1]);
    let ev = event_of(m.on_transcription(Ok("  ".to_string()), "m"));
    assert_eq!(ev.error, Some("No speech detected".to_string()));

    m.start_recording().unwrap();
    m.process_question(vec![1]);
    let ev = event_of(m.on_transcription(Ok("hello".to_string()), ""));
    assert_eq!(
        ev.error,
        Some(
            "No Ollama model configured. Please configure an Ollama model in Ask AI settings."
                .to_string()
        )
    );
    assert_eq!(m.get_state(), AskAiState::Idle);

    // with a turn in the conversation, a failure comes to rest in the conversation
    m.start_recording().unwrap();
    m.process_question(vec![1]);
    m.on_transcription(Ok("first".to_string()), "m");
    m.on_generated(Ok(()), "answer".to_string(), "t1".to_string(), 1);
    m.start_recording().unwrap();
    m.process_question(vec![1]);
    m.on_transcription(Ok("second".to_string()), "m");
    let ev = event_of(m.on_generated(Err("timeout".to_string()), String::new(), "t2".into(), 2));
    assert_eq!(ev.error, Some("AI generation failed: timeout".to_string()));
    assert_eq!(m.get_state(), AskAiState::ConversationActive);
    assert_eq!(m.get_conversation().unwrap().turns.len(), 1);
    assert!(m.can_start_recording());
}

#[test]
fn ask_ai_dismiss_keeps_a_conversation_with_turns() {
    let mut m = AskAiManager::new();
    m.start_recording().unwrap();
    m.dismiss();
    assert_eq!(m.get_state(), AskAiState::Idle);
    assert!(m.get_conversation().is_none());
    m.start_recording().unwrap();
    m.process_question(vec![1]);
    m.on_transcription(Ok("q".to_string()), "m");
    m.on_generated(Ok(()), "a".to_string(), "t".to_string(), 1);
    m.dismiss();
    assert_eq!(m.get_state(), AskAiState::Idle);
    assert_eq!(m.get_conversation().unwrap().turns.len(), 1);
    m.start_new_conversation().unwrap();
    assert!(m.get_conversation().unwrap().turns.is_empty());
    m.reset();
    assert!(m.get_conversation().is_none());
}

#[test]
fn ask_ai_events_hold_their_fields() {
    let ev = AskAiResponseEvent { chunk: "x".to_string(), done: false };
    assert_eq!(ev.chunk, "x");
    assert!(!ev.done);
    let turn = ConversationTurn {
        id: "t".to_string(),
        question: "q".to_string(),
        response: "r".to_string(),
        timestamp: 5,
        audio_file_name: None,
    };
    assert_eq!(turn.timestamp, 5);
}
