use handy_core::stream::{
    endpoint_url, model_names, LineFramer, OllamaModel, OllamaModelInfo, StreamAccumulator,
    StreamAction, StreamRecord, TOKEN_CHANNEL_CAPACITY,
};

fn lines(records: Vec<Vec<u8>>) -> Vec<String> {
    records.into_iter().map(|r| String::from_utf8(r).unwrap()).collect()
}

#[test]
fn framer_cuts_complete_lines() {
    let mut f = LineFramer::new();
    let got = f.push(b"{\"response\":\"4\",\"done\":false}\n{\"response\":\"\",\"done\":true}\n");
    assert_eq!(
        lines(got),
        vec!["{\"response\":\"4\",\"done\":false}", "{\"response\":\"\",\"done\":true}"]
    );
    assert_eq!(f.finish(), None);
}

#[test]
fn framer_joins_a_line_that_arrives_in_pieces() {
    let mut f = LineFramer::new();
    assert!(f.push(b"{\"respo").is_empty());
    assert!(f.push(b"nse\":\"hi\"").is_empty());
    assert_eq!(lines(f.push(b"}\n{\"a\"")), vec!["{\"response\":\"hi\"}"]);
    assert_eq!(lines(f.push(b":1}\r\n\r\n\nx")), vec!["{\"a\":1}"]);
    assert_eq!(f.finish(), Some(b"x".to_vec()));
    assert_eq!(f.finish(), None);
}

#[test]
fn framer_gives_the_same_lines_however_the_bytes_are_cut() {
    let text = "first\nsecond line\r\n\n\nthird\nfourth without end";
    let bytes = text.as_bytes();
    let mut whole = LineFramer::new();
    let mut expected = whole.push(bytes);
    expected.extend(whole.finish());
    assert_eq!(lines(expected.clone()), vec!["first", "second line", "third", "fourth without end"]);
    for size in 1..bytes.len() {
        let mut f = LineFramer::new();
        let mut got = Vec::new();
        for piece in bytes.chunks(size) {
            got.extend(f.push(piece));
        }
        got.extend(f.finish());
        assert_eq!(got, expected, "pieces of {} bytes", size);
    }
}

#[test]
fn framer_keeps_a_multi_byte_character_that_is_cut_in_two() {
    let text = "{\"response\":\"你好\"}\n";
    let bytes = text.as_bytes();
    let mut f = LineFramer::new();
    let mut got = f.push(&bytes[..15]);
    got.extend(f.push(&bytes[15..]));
    assert_eq!(lines(got), vec!["{\"response\":\"你好\"}"]);
}

#[test]
fn framer_strips_one_carriage_return() {
    let mut f = LineFramer::new();
    assert_eq!(f.push(b"a\r\r\n"), vec![b"a\r".to_vec()]);
    assert_eq!(f.push(b"\r\n"), Vec::<Vec<u8>>::new());
    assert_eq!(f.push(b"b\r"), Vec::<Vec<u8>>::new());
    assert_eq!(f.finish(), Some(b"b".to_vec()));
}

fn piece(response: &str, done: bool) -> StreamRecord {
    StreamRecord::Piece { response: response.to_string(), done }
}

#[test]
fn accumulator_puts_the_answer_together() {
    assert_eq!(TOKEN_CHANNEL_CAPACITY, 100);
    let mut a = StreamAccumulator::new();
    assert_eq!(a.accept(piece("Hel", false)), StreamAction::Forward("Hel".to_string()));
    assert_eq!(a.accept(StreamRecord::Malformed), StreamAction::Continue);
    assert_eq!(a.accept(piece("", false)), StreamAction::Continue);
    assert_eq!(a.accept(piece("lo", false)), StreamAction::Forward("lo".to_string()));
    assert!(!a.is_finished());
    assert_eq!(a.accept(piece("", true)), StreamAction::Stop);
    assert!(a.is_finished());
    assert_eq!(a.response(), "Hello");
    // nothing is added after the end
    assert_eq!(a.accept(piece("!", false)), StreamAction::Stop);
    assert_eq!(a.response(), "Hello");
}

#[test]
fn accumulator_last_piece_can_carry_text() {
    let mut a = StreamAccumulator::new();
    assert_eq!(a.accept(piece("12", true)), StreamAction::ForwardAndStop("12".to_string()));
    assert!(a.is_finished());
    assert_eq!(a.response(), "12");
}

#[test]
fn accumulator_stops_when_the_consumer_is_gone() {
    let mut a = StreamAccumulator::new();
    a.accept(piece("par", false));
    a.consumer_gone();
    assert!(a.is_finished());
    assert_eq!(a.accept(piece("tial", false)), StreamAction::Stop);
    assert_eq!(a.response(), "par");
}

#[test]
fn endpoint_url_drops_trailing_slashes() {
    assert_eq!(endpoint_url("http://localhost:11434", "/api/tags"), "http://localhost:11434/api/tags");
    assert_eq!(endpoint_url("http://localhost:11434/", "/api/generate"), "http://localhost:11434/api/generate");
    assert_eq!(endpoint_url("http://h///", "/api/embeddings"), "http://h/api/embeddings");
    assert_eq!(endpoint_url("", "/x"), "/x");
    assert_eq!(endpoint_url("///", ""), "");
}

#[test]
fn model_names_are_listed_in_order() {
    let models = vec![
        OllamaModelInfo {
            name: "llama3".to_string(),
            size: 1,
            digest: "d".to_string(),
            modified_at: "m".to_string(),
        },
        OllamaModelInfo {
            name: "nomic-embed-text".to_string(),
            size: 0,
            digest: String::new(),
            modified_at: String::new(),
        },
    ];
    assert_eq!(model_names(&models), vec!["llama3", "nomic-embed-text"]);
    assert!(model_names(&vec![]).is_empty());
    let m = OllamaModel { name: "llama3".to_string() };
    assert_eq!(m.name, "llama3");
}
