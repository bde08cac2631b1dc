use vstd::prelude::*;
use vstd::string::{StrSliceExecFns, StringExecFns};
use crate::api::{ChatLogEntry, EntryView};
use crate::text::{chars_of, decimal, push_decimal, trim, trimmed};
use crate::ChatTermConfig;

verus! {

/// The least token budget that the set-up takes.
pub const MIN_MAX_TOKENS: u32 = 1000;

/// The largest token budget that the set-up takes.
pub const MAX_MAX_TOKENS: u32 = 4096;

/// Whether the program has to be set up before it can run: it has no key
/// yet, or the user asked for it.
pub fn needs_setup(config: &ChatTermConfig, reconfigure: bool) -> (needed: bool)
    ensures
        needed == (config.openai_api_key@.len() == 0 || reconfigure),
{
    config.openai_api_key.as_str().unicode_len() == 0 || reconfigure
}

/// A text in lower case, as std maps it.
pub uninterp spec fn lowercased(text: Seq<char>) -> Seq<char>;

/// `str::to_lowercase` of std: the text with every character mapped to
/// lower case by the rules of Unicode. The claim is that the result is a
/// function of the text alone, named [`lowercased`].
#[verifier::external_body]
fn to_lowercase(text: &str) -> (lower: String)
    ensures
        lower@ == lowercased(text@),
{
    text.to_lowercase()
}

/// What an answer in lower case says to a question of yes or no: `y` is
/// yes, `n` is no, and anything else is no answer.
pub open spec fn yes_no_of(answer: Seq<char>) -> Option<bool> {
    if answer == "y"@ {
        Some(true)
    } else if answer == "n"@ {
        Some(false)
    } else {
        None
    }
}

/// Computes [`yes_no_of`].
pub fn judge_yes_no(answer: &str) -> (said: Option<bool>)
    ensures
        said == yes_no_of(answer@),
{
    let chars = chars_of(answer);
    proof {
        reveal_strlit("y");
        reveal_strlit("n");
    }
    if chars.len() == 1 && chars[0] == 'y' {
        assert(answer@ =~= "y"@);
        Some(true)
    } else if chars.len() == 1 && chars[0] == 'n' {
        assert(answer@ =~= "n"@);
        Some(false)
    } else {
        None
    }
}

/// The answer that a line gives to a question of yes or no: the line
/// without the white space at its ends and in lower case, where that is
/// `y` or `n`. Any other line is no answer, and the question is put again.
pub open spec fn yes_no_answer(line: Seq<char>) -> Option<bool> {
    yes_no_of(lowercased(trimmed(line)))
}

/// Computes [`yes_no_answer`].
pub fn read_yes_no(line: &str) -> (answer: Option<bool>)
    ensures
        answer == yes_no_answer(line@),
{
    let inner = trim(line);
    let lower = to_lowercase(inner.as_str());
    judge_yes_no(lower.as_str())
}

/// The answer that a line gives where any text will do: the line without
/// the white space at its ends. Only a line that holds nothing at all, not
/// even its line break, is no answer.
pub open spec fn text_answer(line: Seq<char>) -> Option<Seq<char>> {
    if line.len() == 0 {
        None
    } else {
        Some(trimmed(line))
    }
}

/// Computes [`text_answer`].
pub fn read_non_empty(line: &str) -> (answer: Option<String>)
    ensures
        match answer {
            Some(text) => text_answer(line@) == Some(text@),
            None => text_answer(line@) is None,
        },
{
    if line.unicode_len() == 0 {
        None
    } else {
        Some(trim(line))
    }
}

/// Whether a character is one of the ten decimal digits.
pub open spec fn is_digit(c: char) -> bool {
    '0' <= c <= '9'
}

/// Whether a text is made of decimal digits alone.
pub open spec fn all_digits(text: Seq<char>) -> bool {
    forall|i: int| 0 <= i < text.len() ==> is_digit(#[trigger] text[i])
}

/// The number that a run of decimal digits writes. Leading zeros count for
/// nothing.
pub open spec fn digits_value(digits: Seq<char>) -> nat
    decreases digits.len(),
{
    if digits.len() == 0 {
        0
    } else {
        10 * digits_value(digits.drop_last()) + (digits.last() as nat - '0' as nat) as nat
    }
}

/// The number that a text writes, as `u32` reads it: an optional `+`, then
/// one digit or more and nothing else, and a value within 32 bits.
pub open spec fn unsigned_value(text: Seq<char>) -> Option<u32> {
    let digits = if text.len() > 0 && text[0] == '+' {
        text.drop_first()
    } else {
        text
    };
    if digits.len() > 0 && all_digits(digits) && digits_value(digits) <= u32::MAX {
        Some(digits_value(digits) as u32)
    } else {
        None
    }
}

proof fn lemma_digits_value_grows(digits: Seq<char>, shorter: int)
    requires
        0 <= shorter <= digits.len(),
        all_digits(digits),
    ensures
        digits_value(digits.take(shorter)) <= digits_value(digits),
    decreases digits.len() - shorter,
{
    if shorter < digits.len() {
        lemma_digits_value_grows(digits, shorter + 1);
        assert(digits.take(shorter + 1).drop_last() == digits.take(shorter));
    } else {
        assert(digits.take(shorter) == digits);
    }
}

/// Computes [`unsigned_value`].
pub fn parse_unsigned(text: &str) -> (value: Option<u32>)
    ensures
        value == unsigned_value(text@),
{
    let chars = chars_of(text);
    let n = chars.len();
    let start: usize = if n > 0 && chars[0] == '+' {
        1
    } else {
        0
    };
    let ghost digits = text@.subrange(start as int, n as int);
    proof {
        if start == 1 {
            assert(digits == text@.drop_first());
        } else {
            assert(digits == text@);
        }
    }
    if start == n {
        return None;
    }
    let mut value: u64 = 0;
    let mut i: usize = start;
    assert(digits.take(0) == Seq::<char>::empty());
    while i < n
        invariant
            chars@ == text@,
            n == chars.len(),
            start <= i <= n,
            digits == text@.subrange(start as int, n as int),
            digits == if text@.len() > 0 && text@[0] == '+' {
                text@.drop_first()
            } else {
                text@
            },
            all_digits(digits.take(i - start)),
            value == digits_value(digits.take(i - start)),
            value <= u32::MAX,
        decreases n - i,
    {
        let c = chars[i];
        assert(digits[i - start] == c);
        if c < '0' || c > '9' {
            assert(!is_digit(digits[i - start]));
            return None;
        }
        let digit = (c as u32 - '0' as u32) as u64;
        let ghost longer = digits.take(i - start + 1);
        assert(longer.drop_last() == digits.take(i - start));
        assert(longer.last() == c);
        assert(all_digits(longer)) by {
            assert forall|k: int| 0 <= k < longer.len() implies is_digit(#[trigger] longer[k]) by {
                if k < longer.len() - 1 {
                    assert(longer[k] == digits.take(i - start)[k]);
                }
            }
        }
        let next = value * 10 + digit;
        assert(next == digits_value(longer));
        if next > u32::MAX as u64 {
            proof {
                if unsigned_value(text@) is Some {
                    lemma_digits_value_grows(digits, i - start + 1);
                }
            }
            return None;
        }
        value = next;
        i = i + 1;
    }
    assert(digits.take(n - start) == digits);
    Some(value as u32)
}

/// What a line answers to the question for a number between two bounds.
#[derive(Debug, Clone, Copy)]
pub enum IntegerAnswer {
    /// The number, within the bounds.
    Accepted(u32),
    /// A number, but outside the bounds.
    OutOfRange,
    /// No number.
    Invalid,
}

/// The answer that a line gives to the question for a number from `lo` to
/// `hi`: the line without the white space at its ends is read as a number.
pub open spec fn integer_answer(line: Seq<char>, lo: u32, hi: u32) -> IntegerAnswer {
    match unsigned_value(trimmed(line)) {
        Some(value) => if value < lo || value > hi {
            IntegerAnswer::OutOfRange
        } else {
            IntegerAnswer::Accepted(value)
        },
        None => IntegerAnswer::Invalid,
    }
}

/// Computes [`integer_answer`].
pub fn read_valid_integer(line: &str, lo: u32, hi: u32) -> (answer: IntegerAnswer)
    ensures
        answer == integer_answer(line@, lo, hi),
{
    let inner = trim(line);
    match parse_unsigned(inner.as_str()) {
        Some(value) => {
            if value < lo || value > hi {
                IntegerAnswer::OutOfRange
            } else {
                IntegerAnswer::Accepted(value)
            }
        },
        None => IntegerAnswer::Invalid,
    }
}

/// The configuration that the answers of the set-up make: the defaults
/// with the key that was given, with the opening prompt that was given, if
/// one was, and with the token budget that was given.
pub fn configure(api_key: String, initial_prompt: Option<String>, max_tokens: u32) -> (config:
    ChatTermConfig)
    ensures
        config.openai_api_key@ == api_key@,
        config.openai_model@ == "gpt-3.5-turbo"@,
        config.initial_prompt@ == match initial_prompt {
            Some(prompt) => prompt@,
            None => "You are Assistant, a very enthusiastic chatbot. You are chatting with a user."@,
        },
        config.max_tokens == max_tokens,
{
    let mut config = ChatTermConfig::default();
    config.openai_api_key = api_key;
    match initial_prompt {
        Some(prompt) => {
            config.initial_prompt = prompt;
        },
        None => {},
    }
    config.max_tokens = max_tokens;
    config
}

/// The entry that stands at place `i` of the sample transcript.
pub open spec fn dummy_entry(i: nat) -> EntryView {
    EntryView {
        message: "Message "@ + decimal(i),
        response: "Response "@ + decimal(i),
        num_tokens_message: 0,
        num_tokens_response: 0,
    }
}

/// A sample transcript of ten entries, `Message 0` with `Response 0` to
/// `Message 9` with `Response 9`, none with token counts.
pub fn generate_dummy_data() -> (chat_log: Vec<ChatLogEntry>)
    ensures
        chat_log@.len() == 10,
        forall|i: int| 0 <= i < 10 ==> (#[trigger] chat_log@[i])@ == dummy_entry(i as nat),
{
    let mut chat_log: Vec<ChatLogEntry> = Vec::new();
    let mut i: u64 = 0;
    while i < 10
        invariant
            i <= 10,
            chat_log@.len() == i,
            forall|k: int| 0 <= k < i ==> (#[trigger] chat_log@[k])@ == dummy_entry(k as nat),
        decreases 10 - i,
    {
        let mut message = String::from_str("Message ");
        push_decimal(&mut message, i);
        let mut response = String::from_str("Response ");
        push_decimal(&mut response, i);
        chat_log.push(ChatLogEntry::new(message.as_str(), response.as_str()));
        i = i + 1;
    }
    chat_log
}

} // verus!
