use chatgpt_term::api::{ChatGPTClient, ChatGPTSession, ChatLogEntry, Message};
use chatgpt_term::completion::{ApiRequest, TransportError, INITIAL_PROMPT};
use chatgpt_term::transcript::TranscriptError;

fn entry(message: &str, response: &str, mt: u32, rt: u32) -> ChatLogEntry {
    ChatLogEntry {
        message: message.to_string(),
        response: response.to_string(),
        num_tokens_message: mt,
        num_tokens_response: rt,
    }
}

fn fields(e: &ChatLogEntry) -> (String, String, u32, u32) {
    (e.message.clone(), e.response.clone(), e.num_tokens_message, e.num_tokens_response)
}

fn session(budget: u32) -> ChatGPTSession {
    ChatGPTClient::new("sk-test", "gpt-3.5-turbo").new_session(budget)
}

fn answer(content: &str, prompt_tokens: u32, completion_tokens: u32) -> String {
    format!(
        "{{\"choices\":[{{\"message\":{{\"role\":\"assistant\",\"content\":{}}}}}],\"usage\":{{\"prompt_tokens\":{},\"completion_tokens\":{}}}}}",
        serde_json::to_string(content).unwrap(),
        prompt_tokens,
        completion_tokens
    )
}

fn sent_messages(request: &ApiRequest) -> Vec<(String, String)> {
    let document: serde_json::Value = serde_json::from_str(&request.body).unwrap();
    document["messages"]
        .as_array()
        .unwrap()
        .iter()
        .map(|m| {
            (m["role"].as_str().unwrap().to_string(), m["content"].as_str().unwrap().to_string())
        })
        .collect()
}

#[test]
fn entry_starts_without_token_counts() {
    let e = ChatLogEntry::new("prompt", "reply");
    assert_eq!(fields(&e), ("prompt".to_string(), "reply".to_string(), 0, 0));
    let copy = e.clone();
    assert_eq!(fields(&copy), fields(&e));
}

#[test]
fn message_keeps_text_and_role() {
    let m = Message::new("hello", "user");
    assert_eq!(m.content, "hello");
    assert_eq!(m.role, "user");
    let copy = m.clone();
    assert_eq!((copy.content, copy.role), ("hello".to_string(), "user".to_string()));
}

#[test]
fn new_session_is_empty_and_named_after_the_time() {
    let s = session(2000);
    assert!(s.get_chatlog().is_empty());
    assert_eq!(s.max_tokens(), 2000);
    let filename = s.chatlog_filename();
    assert!(filename.starts_with("chatlog_"));
    assert!(filename.ends_with(".json"));
    let stamp = &filename["chatlog_".len()..filename.len() - ".json".len()];
    // Year, month, day, hour, minute and second without padding: ten
    // digits at least, fourteen at most.
    assert!(stamp.len() >= 10 && stamp.len() <= 14);
    assert!(stamp.chars().all(|c| c.is_ascii_digit()));
    let direct = ChatGPTSession::new(ChatGPTClient::new("k", "m"), 7);
    assert_eq!(direct.max_tokens(), 7);
    assert!(direct.get_chatlog().is_empty());
}

#[test]
fn successful_send_appends_the_entry() {
    let mut s = session(2000);
    let e = s.send_message("hi there", |_request| Ok(answer("Hello!", 12, 3))).unwrap();
    assert_eq!(fields(&e), ("hi there".to_string(), "Hello!".to_string(), 12, 3));
    assert_eq!(s.get_chatlog().len(), 1);
    assert_eq!(fields(&s.get_chatlog()[0]), fields(&e));
    let e = s.send_message("and again", |_request| Ok(answer("Again!", 20, 4))).unwrap();
    assert_eq!(s.get_chatlog().len(), 2);
    assert_eq!(fields(&s.get_chatlog()[1]), fields(&e));
    assert_eq!(s.get_chatlog()[0].message, "hi there");
    assert_eq!(s.max_tokens(), 2000);
}

#[test]
fn send_replays_the_transcript_within_the_budget() {
    let mut s = session(8);
    s.load(vec![entry("a", "b", 5, 5)]);
    let mut seen = None;
    let _ = s.send_message("one two three", |request| {
        seen = Some(sent_messages(&request));
        Ok(answer("ok", 1, 1))
    });
    let first = format!("{}b", INITIAL_PROMPT);
    assert_eq!(
        seen.unwrap(),
        vec![
            ("assistant".to_string(), first),
            ("user".to_string(), "one two three".to_string()),
        ]
    );
}

#[test]
fn failed_send_leaves_the_transcript_as_it_was() {
    let mut s = session(2000);
    s.load(vec![entry("a", "b", 1, 2), entry("c", "d", 3, 4)]);
    let before: Vec<_> = s.get_chatlog().iter().map(fields).collect();
    let outcome = s.send_message("hi", |_request| Err("connection refused".to_string()));
    match outcome {
        Err(TransportError::Network(words)) => assert_eq!(words, "connection refused"),
        other => panic!("unexpected: {:?}", other),
    }
    let outcome = s.send_message("hi", |_request| {
        Ok("{\"error\":{\"message\":\"Rate limit reached\"}}".to_string())
    });
    match outcome {
        Err(TransportError::Service(words)) => assert_eq!(words, "Rate limit reached"),
        other => panic!("unexpected: {:?}", other),
    }
    let outcome = s.send_message("hi", |_request| Ok("<html>".to_string()));
    assert!(matches!(outcome, Err(TransportError::Malformed)));
    let after: Vec<_> = s.get_chatlog().iter().map(fields).collect();
    assert_eq!(before, after);
    assert_eq!(s.max_tokens(), 2000);
}

#[test]
fn reset_then_send_asks_with_the_new_message_alone() {
    let mut s = session(2000);
    s.load(vec![entry("a", "b", 1, 2), entry("c", "d", 3, 4)]);
    let name_before = s.chatlog_filename();
    s.reset();
    assert!(s.get_chatlog().is_empty());
    assert_eq!(s.max_tokens(), 2000);
    assert!(s.chatlog_filename().starts_with("chatlog_"));
    assert!(name_before.starts_with("chatlog_"));
    assert_eq!(s.request_window("hi").len(), 1);
    let mut seen = None;
    let _ = s.send_message("hi", |request| {
        seen = Some(sent_messages(&request));
        Ok(answer("hello", 1, 1))
    });
    let only = format!("{}hi", INITIAL_PROMPT);
    assert_eq!(seen.unwrap(), vec![("user".to_string(), only)]);
    assert_eq!(s.get_chatlog().len(), 1);
    assert_eq!(s.get_chatlog()[0].message, "hi");
}

#[test]
fn record_takes_entries_and_passes_errors() {
    let mut s = session(10);
    let e = s.record(Ok(entry("p", "r", 1, 2))).unwrap();
    assert_eq!(fields(&e), ("p".to_string(), "r".to_string(), 1, 2));
    assert_eq!(s.get_chatlog().len(), 1);
    let failed = s.record(Err(TransportError::Malformed));
    assert!(matches!(failed, Err(TransportError::Malformed)));
    assert_eq!(s.get_chatlog().len(), 1);
}

#[test]
fn load_replaces_the_transcript() {
    let mut s = session(10);
    s.load(vec![entry("a", "b", 1, 2)]);
    s.load(vec![entry("c", "d", 3, 4), entry("e", "f", 5, 6)]);
    let now: Vec<_> = s.get_chatlog().iter().map(fields).collect();
    assert_eq!(
        now,
        vec![
            ("c".to_string(), "d".to_string(), 3, 4),
            ("e".to_string(), "f".to_string(), 5, 6),
        ]
    );
    assert_eq!(s.max_tokens(), 10);
}

#[test]
fn log_file_fills_the_session() {
    let text = "[{\"message\":\"a\",\"response\":\"b\",\"num_tokens_message\":1,\"num_tokens_response\":2}]";
    let s = session(300).with_log_file(text).unwrap();
    assert_eq!(s.get_chatlog().len(), 1);
    assert_eq!(fields(&s.get_chatlog()[0]), ("a".to_string(), "b".to_string(), 1, 2));
    assert_eq!(s.max_tokens(), 300);
    assert!(matches!(
        session(300).with_log_file("{\"not\":\"a list\"}"),
        Err(TranscriptError::NotAnArray)
    ));
    assert!(matches!(session(300).with_log_file("[1"), Err(TranscriptError::Syntax(_))));
    assert!(matches!(session(300).with_log_file("[1]"), Err(TranscriptError::BadEntry(0))));
}

#[test]
fn save_hands_name_and_text_to_the_writer() {
    let mut s = session(2000);
    s.load(vec![entry("a", "b", 1, 2)]);
    let mut written = None;
    let saved = s.save_chatlog(|path, text| {
        written = Some((path, text));
        Ok(())
    });
    let filename = saved.unwrap();
    assert_eq!(filename, s.chatlog_filename());
    let (path, text) = written.unwrap();
    assert_eq!(path, filename);
    assert_eq!(text, s.chatlog_json());
    assert_eq!(
        text,
        "[\n  {\n    \"message\": \"a\",\n    \"response\": \"b\",\n    \"num_tokens_message\": 1,\n    \"num_tokens_response\": 2\n  }\n]"
    );
}

#[test]
fn failed_save_passes_the_words_on_and_keeps_the_transcript() {
    let mut s = session(2000);
    s.load(vec![entry("a", "b", 1, 2)]);
    let saved = s.save_chatlog(|_path, _text| Err("disk full".to_string()));
    assert_eq!(saved, Err("disk full".to_string()));
    let saved = s.save_chatlog_to_path("elsewhere.json", |path, _text| {
        assert_eq!(path, "elsewhere.json");
        Err("read-only".to_string())
    });
    assert_eq!(saved, Err("read-only".to_string()));
    assert_eq!(s.get_chatlog().len(), 1);
    assert_eq!(fields(&s.get_chatlog()[0]), ("a".to_string(), "b".to_string(), 1, 2));
}

#[test]
fn save_then_load_gives_the_same_transcript() {
    let mut s = session(2000);
    s.load(vec![entry("q \"1\"", "a\n1", 10, 20), entry("q2", "a2 \\ end", 30, 40)]);
    let mut file = String::new();
    s.save_chatlog_to_path("t.json", |_path, text| {
        file = text;
        Ok(())
    })
    .unwrap();
    let back = session(2000).with_log_file(&file).unwrap();
    let first: Vec<_> = s.get_chatlog().iter().map(fields).collect();
    let second: Vec<_> = back.get_chatlog().iter().map(fields).collect();
    assert_eq!(first, second);
    assert_eq!(back.chatlog_json(), file);
}
