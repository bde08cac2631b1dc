use chatgpt_term::api::ChatLogEntry;
use chatgpt_term::transcript::{
    decode_transcript, encode_transcript, entries_from_raw, entry_from_raw, push_entry_layout,
    RawEntry, TranscriptError,
};

fn entry(message: &str, response: &str, mt: u32, rt: u32) -> ChatLogEntry {
    ChatLogEntry {
        message: message.to_string(),
        response: response.to_string(),
        num_tokens_message: mt,
        num_tokens_response: rt,
    }
}

fn fields(e: &ChatLogEntry) -> (String, String, u32, u32) {
    (e.message.clone(), e.response.clone(), e.num_tokens_message, e.num_tokens_response)
}

fn raw(m: Option<&str>, r: Option<&str>, mt: Option<u64>, rt: Option<u64>) -> RawEntry {
    RawEntry {
        message: m.map(|s| s.to_string()),
        response: r.map(|s| s.to_string()),
        num_tokens_message: mt,
        num_tokens_response: rt,
    }
}

#[test]
fn empty_transcript_is_an_empty_array() {
    assert_eq!(encode_transcript(&Vec::new()), "[]");
}

#[test]
fn transcript_is_laid_out_with_two_spaces_to_a_level() {
    let log = vec![entry("a", "b", 5, 6), entry("c", "d", 70, 0)];
    let expected = "[\n  {\n    \"message\": \"a\",\n    \"response\": \"b\",\n    \"num_tokens_message\": 5,\n    \"num_tokens_response\": 6\n  },\n  {\n    \"message\": \"c\",\n    \"response\": \"d\",\n    \"num_tokens_message\": 70,\n    \"num_tokens_response\": 0\n  }\n]";
    assert_eq!(encode_transcript(&log), expected);
}

#[test]
fn texts_are_written_as_json_strings() {
    let log = vec![entry("say \"hi\"\n", "back\\slash\ttab", 1, 2)];
    let text = encode_transcript(&log);
    assert!(text.contains("\"message\": \"say \\\"hi\\\"\\n\""));
    assert!(text.contains("\"response\": \"back\\\\slash\\ttab\""));
}

#[test]
fn encoding_agrees_with_the_pretty_printer_of_serde_json() {
    // Member for member, the text is what serde_json prints for the same
    // document.
    let log = vec![entry("héllo \"w\"", "line\nbreak", 12, 4_000_000_000), entry("", "", 0, 0)];
    let text = encode_transcript(&log);
    let document: serde_json::Value = serde_json::from_str(&text).unwrap();
    let items = document.as_array().unwrap();
    assert_eq!(items.len(), 2);
    assert_eq!(items[0]["message"].as_str(), Some("héllo \"w\""));
    assert_eq!(items[0]["response"].as_str(), Some("line\nbreak"));
    assert_eq!(items[0]["num_tokens_message"].as_u64(), Some(12));
    assert_eq!(items[0]["num_tokens_response"].as_u64(), Some(4_000_000_000));
    assert_eq!(items[1]["message"].as_str(), Some(""));
    let lines: Vec<&str> = text.lines().collect();
    assert_eq!(lines[0], "[");
    assert_eq!(lines[1], "  {");
    assert!(lines[2].starts_with("    \"message\": "));
    assert!(lines[3].starts_with("    \"response\": "));
    assert_eq!(lines[4], "    \"num_tokens_message\": 12,");
    assert_eq!(lines[5], "    \"num_tokens_response\": 4000000000");
    assert_eq!(lines[6], "  },");
    assert_eq!(lines[lines.len() - 1], "]");
}

#[test]
fn saved_transcript_loads_back_the_same() {
    let log = vec![
        entry("first \"quoted\" prompt", "first reply\nwith a break", 11, 22),
        entry("", "\u{1f600} \\ / \u{7}", 0, u32::MAX),
        entry("tab\there", "ünïcödé", 3, 4),
    ];
    let text = encode_transcript(&log);
    let back = decode_transcript(&text).unwrap();
    assert_eq!(back.len(), log.len());
    for (a, b) in log.iter().zip(back.iter()) {
        assert_eq!(fields(a), fields(b));
    }
    // And saving what was loaded gives the same text again.
    assert_eq!(encode_transcript(&back), text);
    let none = decode_transcript(&encode_transcript(&Vec::new())).unwrap();
    assert!(none.is_empty());
}

#[test]
fn layout_does_not_matter_when_loading() {
    let text = "[{\"num_tokens_response\":2,\"response\":\"b\",\n\n \"message\":\"a\",\"num_tokens_message\":1, \"extra\": null}]";
    let back = decode_transcript(text).unwrap();
    assert_eq!(back.len(), 1);
    assert_eq!(fields(&back[0]), ("a".to_string(), "b".to_string(), 1, 2));
}

#[test]
fn text_that_is_no_json_is_a_syntax_error() {
    match decode_transcript("[{\"message\": ") {
        Err(TranscriptError::Syntax(words)) => assert!(!words.is_empty()),
        other => panic!("unexpected: {:?}", other),
    }
    assert!(matches!(decode_transcript(""), Err(TranscriptError::Syntax(_))));
}

#[test]
fn document_that_is_no_array_is_refused() {
    assert!(matches!(decode_transcript("{}"), Err(TranscriptError::NotAnArray)));
    assert!(matches!(decode_transcript("\"text\""), Err(TranscriptError::NotAnArray)));
    assert!(matches!(decode_transcript("null"), Err(TranscriptError::NotAnArray)));
}

#[test]
fn bad_element_is_named_by_its_place() {
    let good = "{\"message\":\"a\",\"response\":\"b\",\"num_tokens_message\":1,\"num_tokens_response\":2}";
    let missing = "{\"message\":\"a\",\"response\":\"b\",\"num_tokens_message\":1}";
    let negative = "{\"message\":\"a\",\"response\":\"b\",\"num_tokens_message\":-1,\"num_tokens_response\":2}";
    let too_large = "{\"message\":\"a\",\"response\":\"b\",\"num_tokens_message\":4294967296,\"num_tokens_response\":2}";
    let wrong_kind = "{\"message\":7,\"response\":\"b\",\"num_tokens_message\":1,\"num_tokens_response\":2}";
    let fraction = "{\"message\":\"a\",\"response\":\"b\",\"num_tokens_message\":1.5,\"num_tokens_response\":2}";
    for bad in [missing, negative, too_large, wrong_kind, fraction, "7", "[]"] {
        let text = format!("[{}, {}, {}]", good, bad, bad);
        assert!(matches!(decode_transcript(&text), Err(TranscriptError::BadEntry(1))));
        let text = format!("[{}]", bad);
        assert!(matches!(decode_transcript(&text), Err(TranscriptError::BadEntry(0))));
    }
}

#[test]
fn raw_entry_needs_all_four_members() {
    let e = entry_from_raw(&raw(Some("a"), Some("b"), Some(1), Some(2))).unwrap();
    assert_eq!(fields(&e), ("a".to_string(), "b".to_string(), 1, 2));
    assert!(entry_from_raw(&raw(None, Some("b"), Some(1), Some(2))).is_none());
    assert!(entry_from_raw(&raw(Some("a"), None, Some(1), Some(2))).is_none());
    assert!(entry_from_raw(&raw(Some("a"), Some("b"), None, Some(2))).is_none());
    assert!(entry_from_raw(&raw(Some("a"), Some("b"), Some(1), None)).is_none());
}

#[test]
fn raw_entry_counts_have_to_fit_32_bits() {
    let top = u32::MAX as u64;
    let e = entry_from_raw(&raw(Some("a"), Some("b"), Some(top), Some(top))).unwrap();
    assert_eq!(e.num_tokens_message, u32::MAX);
    assert_eq!(e.num_tokens_response, u32::MAX);
    assert!(entry_from_raw(&raw(Some("a"), Some("b"), Some(top + 1), Some(0))).is_none());
    assert!(entry_from_raw(&raw(Some("a"), Some("b"), Some(0), Some(top + 1))).is_none());
}

#[test]
fn raw_entries_fail_at_the_first_bad_one() {
    let raws = vec![
        raw(Some("a"), Some("b"), Some(1), Some(2)),
        raw(Some("c"), Some("d"), Some(3), Some(4)),
    ];
    let made = entries_from_raw(&raws).unwrap();
    assert_eq!(made.len(), 2);
    assert_eq!(fields(&made[1]), ("c".to_string(), "d".to_string(), 3, 4));
    let raws = vec![
        raw(Some("a"), Some("b"), Some(1), Some(2)),
        raw(Some("c"), None, Some(3), Some(4)),
        raw(None, None, None, None),
    ];
    assert!(matches!(entries_from_raw(&raws), Err(TranscriptError::BadEntry(1))));
    assert!(entries_from_raw(&Vec::new()).unwrap().is_empty());
}

#[test]
fn entry_is_laid_out_as_an_indented_object() {
    let mut out = String::from("[\n");
    push_entry_layout(&mut out, "\"a\"", "\"b\"", 5, 4294967295);
    assert_eq!(
        out,
        "[\n  {\n    \"message\": \"a\",\n    \"response\": \"b\",\n    \"num_tokens_message\": 5,\n    \"num_tokens_response\": 4294967295\n  }"
    );
    // The texts are taken as they are given.
    let mut out = String::new();
    push_entry_layout(&mut out, "M", "R", 0, 0);
    assert_eq!(
        out,
        "  {\n    \"message\": M,\n    \"response\": R,\n    \"num_tokens_message\": 0,\n    \"num_tokens_response\": 0\n  }"
    );
}
