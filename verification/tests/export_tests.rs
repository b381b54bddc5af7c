use handy_core::export::{
    date_or_unknown, export_as_json, export_as_json_dated, export_as_markdown,
    export_as_markdown_dated, export_as_srt, export_entries_as_markdown, export_as_txt, export_as_txt_dated, export_as_vtt,
    export_entries, export_entries_as_json, export_entries_as_json_dated,
    export_entries_as_markdown_dated, export_entries_as_txt, export_entries_as_txt_dated,
    export_entries_dated, export_entry, export_filename, format_subtitle_time, format_timestamp,
    generate_batch_export_filename, generate_export_filename, split_words, stamp_or_number,
    ExportFormat,
};
use handy_core::history::HistoryEntry;
use serde::ser::SerializeStruct;

fn sample_entry() -> HistoryEntry {
    HistoryEntry {
        id: 1,
        file_name: "handy-1700000000.wav".to_string(),
        timestamp: 1700000000,
        saved: false,
        title: "Test Entry".to_string(),
        transcription_text: "Hello world this is a test transcription with enough words to make multiple subtitle segments for testing purposes".to_string(),
        post_processed_text: None,
        post_process_prompt: None,
    }
}

fn sample_entry_with_post_processed() -> HistoryEntry {
    HistoryEntry {
        id: 2,
        file_name: "handy-1700000001.wav".to_string(),
        timestamp: 1700000001,
        saved: true,
        title: "Processed Entry".to_string(),
        transcription_text: "hello world".to_string(),
        post_processed_text: Some("Hello, World!".to_string()),
        post_process_prompt: Some("Fix grammar".to_string()),
    }
}

fn with_text(text: &str) -> HistoryEntry {
    let mut e = sample_entry();
    e.transcription_text = text.to_string();
    e
}

#[test]
fn test_export_as_txt() {
    let entry = sample_entry();
    let result = export_as_txt(&entry);
    assert!(result.contains("Transcription"));
    assert!(result.contains("Hello world"));
}

#[test]
fn test_export_as_txt_uses_post_processed() {
    let entry = sample_entry_with_post_processed();
    let result = export_as_txt(&entry);
    assert!(result.contains("Hello, World!"));
    assert!(!result.contains("hello world"));
}

#[test]
fn test_export_as_srt() {
    let entry = sample_entry();
    let result = export_as_srt(&entry);
    // SRT must start with sequence number 1
    assert!(result.starts_with("1\n"));
    // Must contain timestamp arrows
    assert!(result.contains(" --> "));
    // SRT uses comma for millisecond separator
    assert!(result.contains(","));
}

#[test]
fn test_export_as_vtt() {
    let entry = sample_entry();
    let result = export_as_vtt(&entry);
    // VTT must start with WEBVTT header
    assert!(result.starts_with("WEBVTT\n"));
    // Must contain timestamp arrows
    assert!(result.contains(" --> "));
    // VTT uses period for millisecond separator
    assert!(result.contains("."));
}

#[test]
fn test_export_as_json() {
    let entry = sample_entry();
    let result = export_as_json(&entry).unwrap();
    let parsed: serde_json::Value = serde_json::from_str(&result).unwrap();
    assert_eq!(parsed["id"], 1);
    assert_eq!(parsed["transcription"], "Hello world this is a test transcription with enough words to make multiple subtitle segments for testing purposes");
}

#[test]
fn test_export_as_markdown() {
    let entry = sample_entry();
    let result = export_as_markdown(&entry);
    assert!(result.starts_with("# Transcription"));
    assert!(result.contains("## Text"));
    assert!(result.contains("Hello world"));
}

#[test]
fn test_export_as_markdown_with_post_processed() {
    let entry = sample_entry_with_post_processed();
    let result = export_as_markdown(&entry);
    assert!(result.contains("Hello, World!"));
    assert!(result.contains("## Original Transcription"));
    assert!(result.contains("hello world"));
}

#[test]
fn test_format_subtitle_time_srt() {
    assert_eq!(format_subtitle_time(0, true), "00:00:00,000");
    assert_eq!(format_subtitle_time(1500, true), "00:00:01,500");
    assert_eq!(format_subtitle_time(3661123, true), "01:01:01,123");
}

#[test]
fn test_format_subtitle_time_vtt() {
    assert_eq!(format_subtitle_time(0, false), "00:00:00.000");
    assert_eq!(format_subtitle_time(1500, false), "00:00:01.500");
}

#[test]
fn test_generate_export_filename() {
    let entry = sample_entry();
    let filename = generate_export_filename(&entry, &ExportFormat::Srt);
    assert!(filename.starts_with("handy-transcription-"));
    assert!(filename.ends_with(".srt"));
}

#[test]
fn test_export_entries_as_json() {
    let entries = vec![sample_entry(), sample_entry_with_post_processed()];
    let result = export_entries_as_json(&entries).unwrap();
    let parsed: Vec<serde_json::Value> = serde_json::from_str(&result).unwrap();
    assert_eq!(parsed.len(), 2);
}

#[test]
fn test_export_entry_all_formats() {
    let entry = sample_entry();
    for format in [
        ExportFormat::Txt,
        ExportFormat::Srt,
        ExportFormat::Vtt,
        ExportFormat::Json,
        ExportFormat::Markdown,
    ] {
        let result = export_entry(&entry, &format);
        assert!(result.is_ok(), "Failed to export as {:?}", format);
        assert!(!result.unwrap().is_empty(), "Empty export for {:?}", format);
    }
}

#[test]
fn export_format_names() {
    assert_eq!(ExportFormat::Txt.file_extension(), "txt");
    assert_eq!(ExportFormat::Srt.file_extension(), "srt");
    assert_eq!(ExportFormat::Vtt.file_extension(), "vtt");
    assert_eq!(ExportFormat::Json.file_extension(), "json");
    assert_eq!(ExportFormat::Markdown.file_extension(), "md");
    assert_eq!(ExportFormat::Txt.mime_type(), "text/plain");
    assert_eq!(ExportFormat::Srt.mime_type(), "application/x-subrip");
    assert_eq!(ExportFormat::Vtt.mime_type(), "text/vtt");
    assert_eq!(ExportFormat::Json.mime_type(), "application/json");
    assert_eq!(ExportFormat::Markdown.mime_type(), "text/markdown");
    assert_eq!(ExportFormat::Markdown.to_string(), "md");
}

#[test]
fn export_txt_and_markdown_under_a_given_date() {
    let e = sample_entry_with_post_processed();
    assert_eq!(export_as_txt_dated(&e, "May 1"), "Transcription - May 1\n\nHello, World!\n");
    assert_eq!(
        export_as_markdown_dated(&e, "May 1"),
        "# Transcription\n\n**Date:** May 1\n\n## Text\n\nHello, World!\n\n## Original Transcription\n\nhello world\n"
    );
    assert_eq!(
        export_as_markdown_dated(&with_text("plain"), "May 1"),
        "# Transcription\n\n**Date:** May 1\n\n## Text\n\nplain\n"
    );
}

#[test]
fn export_date_falls_back_to_the_number() {
    assert_eq!(date_or_unknown(Some("May 1".to_string()), 5), "May 1");
    assert_eq!(date_or_unknown(None, -7), "Unknown (-7)");
    assert_eq!(format_timestamp(i64::MAX), format!("Unknown ({})", i64::MAX));
    assert_eq!(stamp_or_number(None, 1700000000), "1700000000");
    assert_eq!(stamp_or_number(Some("2023-11-14_221320".to_string()), 1700000000), "2023-11-14_221320");
    assert_eq!(export_filename("2023-11-14_221320", &ExportFormat::Vtt), "handy-transcription-2023-11-14_221320.vtt");
    let mut e = sample_entry();
    e.timestamp = i64::MIN;
    assert_eq!(
        generate_export_filename(&e, &ExportFormat::Json),
        format!("handy-transcription-{}.json", i64::MIN)
    );
}

#[test]
fn export_date_is_written_for_the_reader() {
    let date = format_timestamp(1700000000);
    assert!(date.contains("2023"));
    assert!(date.contains("November"));
    assert!(date.ends_with("AM") || date.ends_with("PM"));
    let name = generate_batch_export_filename(&ExportFormat::Markdown);
    assert!(name.starts_with("handy-export-2"));
    assert!(name.ends_with(".md"));
    assert_eq!(name.len(), "handy-export-2023-11-14_221320.md".len());
}

#[test]
fn words_are_the_stretches_without_white_space() {
    let words: Vec<String> =
        split_words("  Hello,\tworld\n\n again \u{3000}x ").into_iter().map(|w| w.into_iter().collect()).collect();
    assert_eq!(words, vec!["Hello,", "world", "again", "x"]);
    assert!(split_words("").is_empty());
    assert!(split_words(" \n ").is_empty());
    assert_eq!(split_words("one").len(), 1);
}

#[test]
fn srt_of_a_long_text_has_cues_of_ten_words() {
    let result = export_as_srt(&sample_entry());
    // 18 words: 7.2 seconds in all, 4 seconds for each cue of ten words
    assert_eq!(
        result,
        "1\n00:00:00,000 --> 00:00:04,000\nHello world this is a test transcription with enough words\n\n\
         2\n00:00:04,000 --> 00:00:07,200\nto make multiple subtitle segments for testing purposes\n\n"
    );
}

#[test]
fn vtt_of_a_long_text_has_cues_of_ten_words() {
    let result = export_as_vtt(&sample_entry());
    assert_eq!(
        result,
        "WEBVTT\n\n00:00:00.000 --> 00:00:04.000\nHello world this is a test transcription with enough words\n\n\
         00:00:04.000 --> 00:00:07.200\nto make multiple subtitle segments for testing purposes\n\n"
    );
}

#[test]
fn subtitles_of_a_short_text_last_a_second() {
    assert_eq!(export_as_srt(&with_text("hi")), "1\n00:00:00,000 --> 00:00:01,000\nhi\n\n");
    assert_eq!(export_as_srt(&with_text("hi  there")), "1\n00:00:00,000 --> 00:00:01,000\nhi there\n\n");
    assert_eq!(
        export_as_srt(&with_text("one two three")),
        "1\n00:00:00,000 --> 00:00:01,200\none two three\n\n"
    );
    assert_eq!(export_as_srt(&with_text("")), "");
    assert_eq!(export_as_vtt(&with_text("  ")), "WEBVTT\n\n");
}

#[test]
fn subtitles_of_exactly_ten_and_twenty_words() {
    let ten = "a b c d e f g h i j";
    assert_eq!(export_as_srt(&with_text(ten)), format!("1\n00:00:00,000 --> 00:00:04,000\n{}\n\n", ten));
    let twenty = format!("{} {}", ten, ten);
    let srt = export_as_srt(&with_text(&twenty));
    assert_eq!(
        srt,
        format!(
            "1\n00:00:00,000 --> 00:00:04,000\n{}\n\n2\n00:00:04,000 --> 00:00:08,000\n{}\n\n",
            ten, ten
        )
    );
}

#[test]
fn subtitle_time_counts_hours_beyond_two_digits() {
    assert_eq!(format_subtitle_time(100 * 3_600_000 + 59_999, false), "100:00:59.999");
    assert_eq!(format_subtitle_time(59 * 60_000 + 7, true), "00:59:00,007");
}

#[test]
fn json_of_an_entry_is_laid_out_field_by_field() {
    let mut e = sample_entry_with_post_processed();
    e.transcription_text = "say \"hi\"\n".to_string();
    assert_eq!(
        export_as_json_dated(&e, "May 1", "").unwrap(),
        "{\n  \"id\": 2,\n  \"timestamp\": 1700000001,\n  \"date\": \"May 1\",\n  \"transcription\": \"say \\\"hi\\\"\\n\",\n  \"post_processed\": \"Hello, World!\"\n}"
    );
    let plain = export_as_json_dated(&with_text("x"), "d", "").unwrap();
    assert!(plain.ends_with("\"post_processed\": null\n}"));
    let parsed: serde_json::Value = serde_json::from_str(&plain).unwrap();
    assert_eq!(parsed["post_processed"], serde_json::Value::Null);
    assert_eq!(parsed["timestamp"], 1700000000);
}

#[test]
fn json_of_entries_is_an_array() {
    let entries = vec![sample_entry_with_post_processed(), with_text("x")];
    let dates = vec!["d1".to_string(), "d2".to_string()];
    let text = export_entries_as_json_dated(&entries, &dates).unwrap();
    assert!(text.starts_with("[\n  {\n    \"id\": 2,\n"));
    assert!(text.contains("\n  },\n  {\n    \"id\": 1,\n"));
    assert!(text.ends_with("\n  }\n]"));
    let parsed: Vec<serde_json::Value> = serde_json::from_str(&text).unwrap();
    assert_eq!(parsed[0]["date"], "d1");
    assert_eq!(parsed[1]["transcription"], "x");
    assert_eq!(export_entries_as_json_dated(&vec![], &vec![]).unwrap(), "[]");
    // the text is what serde_json itself writes for the same values
    let again = serde_json::to_string_pretty(&parsed).unwrap();
    let reparsed: Vec<serde_json::Value> = serde_json::from_str(&again).unwrap();
    assert_eq!(parsed, reparsed);
}

#[test]
fn entries_as_text_are_separated_by_a_rule() {
    let entries = vec![with_text("one"), with_text("two")];
    let dates = vec!["d1".to_string(), "d2".to_string()];
    assert_eq!(
        export_entries_as_txt_dated(&entries, &dates),
        "Transcription - d1\n\none\n\n---\n\nTranscription - d2\n\ntwo\n"
    );
    assert_eq!(export_entries_as_txt_dated(&vec![], &vec![]), "");
    assert!(export_entries_as_txt(&entries).contains("\n---\n\n"));
}

#[test]
fn entries_as_markdown_have_a_header() {
    let entries = vec![with_text("one"), sample_entry_with_post_processed()];
    let dates = vec!["d1".to_string(), "d2".to_string()];
    assert_eq!(
        export_entries_as_markdown_dated(&entries, &dates, "today"),
        "# Transcription Export\n\n**Exported:** today  \n**Entries:** 2\n\n---\n\n## d1\n\none\n\n---\n\n## d2\n\nHello, World!\n\n---\n\n"
    );
}

#[test]
fn entries_in_every_format() {
    let entries = vec![with_text("one"), with_text("two words")];
    let dates = vec!["d1".to_string(), "d2".to_string()];
    let srt = export_entries_dated(&entries, &ExportFormat::Srt, &dates, "now").unwrap();
    assert_eq!(
        srt,
        "1\n00:00:00,000 --> 00:00:01,000\none\n\n\n1\n00:00:00,000 --> 00:00:01,000\ntwo words\n\n"
    );
    let vtt = export_entries_dated(&entries, &ExportFormat::Vtt, &dates, "now").unwrap();
    assert_eq!(
        vtt,
        "WEBVTT\n\nNOTE d1\n\n00:00:00.000 --> 00:00:01.000\none\n\nNOTE d2\n\n00:00:00.000 --> 00:00:01.000\ntwo words\n\n"
    );
    for format in [ExportFormat::Txt, ExportFormat::Json, ExportFormat::Markdown, ExportFormat::Srt, ExportFormat::Vtt] {
        let out = export_entries(&entries, &format).unwrap();
        assert!(!out.is_empty());
    }
    assert_eq!(export_entries(&vec![], &ExportFormat::Vtt).unwrap(), "WEBVTT\n\n");
    assert_eq!(export_entries(&vec![], &ExportFormat::Srt).unwrap(), "");
}

#[test]
fn entries_as_markdown_under_the_dates_of_the_machine() {
    let entries = vec![with_text("one"), with_text("two")];
    let out = export_entries_as_markdown(&entries);
    assert!(out.starts_with("# Transcription Export\n\n**Exported:** "));
    assert!(out.contains("**Entries:** 2\n\n---\n\n## "));
    assert!(out.ends_with("two\n\n---\n\n"));
}

#[test]
fn entries_without_a_date_are_written_as_unknown() {
    let entries = vec![with_text("one"), with_text("two")];
    let dates = vec!["d1".to_string()];
    assert_eq!(
        export_entries_as_txt_dated(&entries, &dates),
        "Transcription - d1\n\none\n\n---\n\nTranscription - Unknown (1700000000)\n\ntwo\n"
    );
}

#[test]
fn a_date_is_written_for_every_second_that_has_one() {
    let first = handy_core::export::FIRST_DATED_SECOND;
    let last = handy_core::export::LAST_DATED_SECOND;
    assert_eq!(first, -8_334_601_228_800);
    assert_eq!(last, 8_210_266_876_799);
    assert_eq!(
        handy_core::export::format_timestamp(first - 1),
        "Unknown (-8334601228801)"
    );
    assert_eq!(handy_core::export::format_timestamp(last + 1), "Unknown (8210266876800)");
    assert_eq!(handy_core::export::format_timestamp(i64::MIN), "Unknown (-9223372036854775808)");
    assert_eq!(handy_core::export::format_timestamp(i64::MAX), "Unknown (9223372036854775807)");
    for t in [first, first + 1, -1, 0, 1_700_000_000, last - 1, last] {
        let date = handy_core::export::format_timestamp(t);
        assert!(!date.starts_with("Unknown"), "{}: {}", t, date);
        assert!(date.ends_with("AM") || date.ends_with("PM"), "{}: {}", t, date);
    }
}

/// An entry as it is written to JSON, for serde_json to write by its own rules.
struct WrittenEntry {
    id: i64,
    timestamp: i64,
    date: String,
    transcription: String,
    post_processed: Option<String>,
}

impl serde::Serialize for WrittenEntry {
    fn serialize<S: serde::Serializer>(&self, serializer: S) -> Result<S::Ok, S::Error> {
        let mut entry = serializer.serialize_struct("ExportedEntry", 5)?;
        entry.serialize_field("id", &self.id)?;
        entry.serialize_field("timestamp", &self.timestamp)?;
        entry.serialize_field("date", &self.date)?;
        entry.serialize_field("transcription", &self.transcription)?;
        entry.serialize_field("post_processed", &self.post_processed)?;
        entry.end()
    }
}

fn written(entry: &HistoryEntry, date: &str) -> WrittenEntry {
    WrittenEntry {
        id: entry.id,
        timestamp: entry.timestamp,
        date: date.to_string(),
        transcription: entry.transcription_text.clone(),
        post_processed: entry.post_processed_text.clone(),
    }
}

fn awkward_entries() -> Vec<HistoryEntry> {
    let mut quoted = sample_entry_with_post_processed();
    quoted.id = -7;
    quoted.timestamp = -1;
    quoted.transcription_text = "she said \"hi\"\n\ttab \\ slash \u{1} \u{7f} caf\u{e9} \u{1F600}".to_string();
    quoted.post_processed_text = Some(String::new());
    let mut far = sample_entry();
    far.id = i64::MAX;
    far.timestamp = i64::MIN;
    far.transcription_text = String::new();
    vec![sample_entry(), sample_entry_with_post_processed(), quoted, far]
}

#[test]
fn json_of_an_entry_is_what_serde_json_writes() {
    for entry in awkward_entries() {
        for date in ["November 14, 2023 10:13 PM", "", "Unknown (\"x\")"] {
            let ours = export_as_json_dated(&entry, date, "").unwrap();
            let theirs = serde_json::to_string_pretty(&written(&entry, date)).unwrap();
            assert_eq!(ours, theirs);
        }
        let date = format_timestamp(entry.timestamp);
        assert_eq!(
            export_as_json(&entry).unwrap(),
            serde_json::to_string_pretty(&written(&entry, &date)).unwrap()
        );
    }
}

#[test]
fn json_of_entries_is_what_serde_json_writes() {
    let entries = awkward_entries();
    for n in 0..=entries.len() {
        let some: Vec<HistoryEntry> = entries[..n].to_vec();
        let dates: Vec<String> = some.iter().map(|e| format!("day {}", e.id)).collect();
        let rows: Vec<WrittenEntry> =
            some.iter().zip(dates.iter()).map(|(e, d)| written(e, d)).collect();
        assert_eq!(
            export_entries_as_json_dated(&some, &dates).unwrap(),
            serde_json::to_string_pretty(&rows).unwrap(),
            "{} entries",
            n
        );
    }
}
