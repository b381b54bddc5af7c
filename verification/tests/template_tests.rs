use handy_core::template::{
    apply_prompt_template, apply_prompt_template_with_rag, apply_template, fill_output_placeholder,
    Binding,
};

#[test]
fn test_apply_prompt_template() {
    let template = "Transcription: {{transcription}}\nContext: {{previous_context}}\nTopic: {{session_topic}}";
    let result = apply_prompt_template(
        template,
        "Hello world",
        "Previous discussion about AI",
        Some("AI Meeting"),
    );

    assert!(result.contains("Hello world"));
    assert!(result.contains("Previous discussion about AI"));
    assert!(result.contains("AI Meeting"));
}

#[test]
fn test_apply_prompt_template_no_topic() {
    let template = "Topic: {{session_topic}}";
    let result = apply_prompt_template(template, "", "", None);

    assert!(result.contains("Not specified"));
}

#[test]
fn test_apply_prompt_template_empty_template() {
    let template = "";
    let result = apply_prompt_template(template, "hello", "context", Some("topic"));
    assert_eq!(result, "");
}

#[test]
fn test_apply_prompt_template_no_variables() {
    let template = "This is a static prompt with no variables.";
    let result = apply_prompt_template(template, "hello", "context", Some("topic"));
    assert_eq!(result, "This is a static prompt with no variables.");
}

#[test]
fn test_apply_prompt_template_multiple_same_variable() {
    let template = "{{transcription}} - {{transcription}}";
    let result = apply_prompt_template(template, "test", "", None);
    assert_eq!(result, "test - test");
}

#[test]
fn test_apply_prompt_template_multiline_transcription() {
    let template = "Text: {{transcription}}";
    let result = apply_prompt_template(template, "line1\nline2\nline3", "", None);
    assert!(result.contains("line1\nline2\nline3"));
}

#[test]
fn test_apply_prompt_template_special_characters() {
    let template = "{{transcription}}";
    let result = apply_prompt_template(template, "Hello! @#$%^&*()_+", "", None);
    assert_eq!(result, "Hello! @#$%^&*()_+");
}

#[test]
fn test_apply_prompt_template_unicode() {
    let template = "{{transcription}}";
    let result = apply_prompt_template(template, "你好世界 🌍", "", None);
    assert_eq!(result, "你好世界 🌍");
}

#[test]
fn test_apply_prompt_template_all_variables() {
    let template = "T:{{transcription}}|C:{{previous_context}}|S:{{session_topic}}";
    let result = apply_prompt_template(template, "trans", "ctx", Some("topic"));
    assert_eq!(result, "T:trans|C:ctx|S:topic");
}

#[test]
fn test_apply_prompt_template_preserves_formatting() {
    let template = "  {{transcription}}  ";
    let result = apply_prompt_template(template, "text", "", None);
    assert_eq!(result, "  text  ");
}

#[test]
fn test_apply_prompt_template_with_rag_context() {
    let template = "Transcription: {{transcription}}\nKnowledge: {{retrieved_context}}";
    let result = apply_prompt_template_with_rag(
        template,
        "Hello",
        "",
        None,
        Some("Relevant facts from knowledge base"),
    );
    assert!(result.contains("Hello"));
    assert!(result.contains("Relevant facts from knowledge base"));
}

#[test]
fn test_apply_prompt_template_with_rag_no_context() {
    let template = "Knowledge: {{retrieved_context}}";
    let result = apply_prompt_template_with_rag(template, "", "", None, None);
    assert!(result.contains("No additional context available"));
}

#[test]
fn test_apply_prompt_template_with_rag_all_variables() {
    let template =
        "T:{{transcription}}|C:{{previous_context}}|S:{{session_topic}}|R:{{retrieved_context}}";
    let result =
        apply_prompt_template_with_rag(template, "trans", "ctx", Some("topic"), Some("rag"));
    assert_eq!(result, "T:trans|C:ctx|S:topic|R:rag");
}

fn binding(key: &str, value: &str) -> Binding {
    Binding { key: key.to_string(), value: value.to_string() }
}

#[test]
fn template_value_holding_a_placeholder_is_not_expanded() {
    let bindings = vec![binding("{{a}}", "{{b}}"), binding("{{b}}", "X")];
    assert_eq!(apply_template("{{a}}", &bindings), "{{b}}");
    assert_eq!(apply_template("{{a}}{{b}}", &bindings), "{{b}}X");
}

#[test]
fn template_transcription_naming_a_later_placeholder_stays_verbatim() {
    let result = apply_prompt_template(
        "{{transcription}}|{{session_topic}}",
        "say {{session_topic}}",
        "",
        Some("budget"),
    );
    assert_eq!(result, "say {{session_topic}}|budget");
}

#[test]
fn template_first_listed_placeholder_wins() {
    let bindings = vec![binding("ab", "1"), binding("abc", "2"), binding("", "never")];
    assert_eq!(apply_template("abc", &bindings), "1c");
    assert_eq!(apply_template("xabx", &bindings), "x1x");
}

#[test]
fn template_unfinished_placeholder_is_copied() {
    let result = apply_prompt_template("{{transcription} {{transcriptio", "t", "", None);
    assert_eq!(result, "{{transcription} {{transcriptio");
}

#[test]
fn output_placeholder_is_filled_everywhere() {
    assert_eq!(fill_output_placeholder("Fix: ${output} / ${output}", "hi"), "Fix: hi / hi");
    assert_eq!(fill_output_placeholder("no marker", "hi"), "no marker");
    assert_eq!(fill_output_placeholder("${output}", "${output}"), "${output}");
}

#[test]
fn retrieved_context_joins_the_chunks_with_empty_lines() {
    let none: Vec<String> = Vec::new();
    assert_eq!(handy_core::template::retrieved_context(&none), None);
    assert_eq!(
        handy_core::template::retrieved_context(&vec!["only".to_string()]),
        Some("only".to_string())
    );
    assert_eq!(
        handy_core::template::retrieved_context(&vec![
            "The quick brown fox".to_string(),
            String::new(),
            "Jumps over\nthe lazy dog".to_string(),
        ]),
        Some("The quick brown fox\n\n\n\nJumps over\nthe lazy dog".to_string())
    );
}
