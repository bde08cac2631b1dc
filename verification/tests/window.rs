use chatgpt_term::api::{ChatLogEntry, Message};
use chatgpt_term::text::estimate_tokens;
use chatgpt_term::window::build_window;

fn entry(message: &str, response: &str, mt: u32, rt: u32) -> ChatLogEntry {
    ChatLogEntry {
        message: message.to_string(),
        response: response.to_string(),
        num_tokens_message: mt,
        num_tokens_response: rt,
    }
}

fn pairs(window: &[Message]) -> Vec<(String, String)> {
    window.iter().map(|m| (m.role.clone(), m.content.clone())).collect()
}

fn said(role: &str, content: &str) -> (String, String) {
    (role.to_string(), content.to_string())
}

#[test]
fn reply_fits_but_prompt_does_not() {
    let log = vec![entry("a", "b", 5, 5)];
    assert_eq!(estimate_tokens("one two three"), 3);
    let window = build_window(&log, 8, "one two three");
    assert_eq!(pairs(&window), vec![said("assistant", "b"), said("user", "one two three")]);
}

#[test]
fn whole_entry_fits_at_the_exact_budget() {
    let log = vec![entry("a", "b", 5, 5)];
    let window = build_window(&log, 13, "one two three");
    assert_eq!(
        pairs(&window),
        vec![said("user", "a"), said("assistant", "b"), said("user", "one two three")]
    );
}

#[test]
fn new_message_is_sent_even_over_budget() {
    let log = vec![entry("a", "b", 1, 1)];
    let window = build_window(&log, 0, "far more words than the budget allows");
    assert_eq!(pairs(&window), vec![said("user", "far more words than the budget allows")]);
    let window = build_window(&log, 2, "one two three");
    assert_eq!(pairs(&window), vec![said("user", "one two three")]);
}

#[test]
fn empty_transcript_gives_the_new_message_alone() {
    let log: Vec<ChatLogEntry> = Vec::new();
    let window = build_window(&log, 2000, "hi");
    assert_eq!(pairs(&window), vec![said("user", "hi")]);
}

#[test]
fn scan_stops_at_the_first_that_does_not_fit() {
    // The oldest entry is free, but the one after it does not fit: nothing
    // older than the stop is replayed.
    let log = vec![entry("ask0", "say0", 0, 0), entry("ask1", "say1", 50, 50), entry("ask2", "say2", 2, 2)];
    let window = build_window(&log, 10, "hi");
    assert_eq!(
        pairs(&window),
        vec![said("user", "ask2"), said("assistant", "say2"), said("user", "hi")]
    );
}

#[test]
fn newest_entries_are_replayed_in_their_order() {
    let log = vec![entry("ask0", "say0", 1, 1), entry("ask1", "say1", 1, 1), entry("ask2", "say2", 1, 1)];
    let window = build_window(&log, 100, "and now");
    assert_eq!(
        pairs(&window),
        vec![
            said("user", "ask0"),
            said("assistant", "say0"),
            said("user", "ask1"),
            said("assistant", "say1"),
            said("user", "ask2"),
            said("assistant", "say2"),
            said("user", "and now"),
        ]
    );
}

#[test]
fn larger_budget_keeps_what_the_smaller_replayed() {
    let log = vec![
        entry("ask0", "say0", 3, 4),
        entry("ask1", "say1", 2, 6),
        entry("ask2", "say2", 5, 1),
        entry("ask3", "say3", 0, 2),
    ];
    let mut before = build_window(&log, 0, "a b").len();
    for budget in 1..40u32 {
        let window = build_window(&log, budget, "a b");
        assert!(window.len() >= before);
        before = window.len();
        // The replayed part is the tail of the conversation.
        let mut all: Vec<(String, String)> = Vec::new();
        for e in &log {
            all.push(said("user", &e.message));
            all.push(said("assistant", &e.response));
        }
        let replayed = window.len() - 1;
        assert_eq!(pairs(&window[..replayed]), all[all.len() - replayed..].to_vec());
        assert_eq!(pairs(&window[replayed..]), vec![said("user", "a b")]);
    }
    assert_eq!(before, 9);
}

#[test]
fn a_prompt_never_comes_without_its_reply() {
    let log = vec![entry("ask0", "say0", 3, 4), entry("ask1", "say1", 2, 6), entry("ask2", "say2", 5, 1)];
    for budget in 0..30u32 {
        let window = build_window(&log, budget, "x");
        let replayed = &window[..window.len() - 1];
        for (i, m) in replayed.iter().enumerate() {
            if m.role == "user" {
                assert!(i + 1 < replayed.len());
                assert_eq!(replayed[i + 1].role, "assistant");
                assert_eq!(replayed[i + 1].content, m.content.replace("ask", "say"));
            }
        }
    }
}

#[test]
fn counts_at_the_top_of_their_range_do_not_wrap() {
    let log = vec![entry("ask", "say", u32::MAX, u32::MAX)];
    let window = build_window(&log, u32::MAX, "x");
    assert_eq!(pairs(&window), vec![said("user", "x")]);
    let log = vec![entry("ask", "say", 0, u32::MAX - 1)];
    let window = build_window(&log, u32::MAX, "x");
    assert_eq!(
        pairs(&window),
        vec![said("user", "ask"), said("assistant", "say"), said("user", "x")]
    );
}

#[test]
fn words_parted_by_a_tab_count_each() {
    // Two words cost two, so a reply that costs one does not fit a budget
    // of two.
    let log = vec![entry("ask", "say", 5, 1)];
    assert_eq!(estimate_tokens("a\tb"), 2);
    let window = build_window(&log, 2, "a\tb");
    assert_eq!(pairs(&window), vec![said("user", "a\tb")]);
    let window = build_window(&log, 3, "a\tb");
    assert_eq!(pairs(&window), vec![said("assistant", "say"), said("user", "a\tb")]);
}

#[test]
fn message_without_words_costs_nothing() {
    let log = vec![entry("ask", "say", 1, 1)];
    assert_eq!(estimate_tokens("  "), 0);
    let window = build_window(&log, 2, "  ");
    assert_eq!(
        pairs(&window),
        vec![said("user", "ask"), said("assistant", "say"), said("user", "  ")]
    );
}
