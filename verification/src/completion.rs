use vstd::prelude::*;
use vstd::string::StringExecFns;
use crate::api::{message_views, ChatLogEntry, EntryView, Message, MessageView};
use crate::json::{
    json_document, json_elements, json_is_object, json_member, json_string, member,
    member_signed, member_text, parse_document, quote, signed_member, text_member, text_view,
};
use crate::text::{lemma_remove_all_after_prefix, remove_all, strip_all};

verus! {

/// The preamble that every request opens with: it is put in front of the
/// text of the oldest message of the window, and taken out again of the
/// prompt that is recorded.
pub const INITIAL_PROMPT: &'static str =
    "You are Assistant, a very enthusiastic chatbot. You are chatting with a user.\n            If you don't know the answer to something, say \\\"I don't know\\\".\\n\\n";

/// Where completions are asked for.
pub const COMPLETIONS_URL: &'static str = "https://api.openai.com/v1/chat/completions";

/// The messages as they are sent: the first with the preamble in front of
/// its text, the others as they are.
pub open spec fn framed(messages: Seq<MessageView>) -> Seq<MessageView> {
    if messages.len() == 0 {
        messages
    } else {
        messages.update(
            0,
            MessageView {
                content: INITIAL_PROMPT@ + messages[0].content,
                role: messages[0].role,
            },
        )
    }
}

/// Puts the preamble in front of the first message.
pub fn frame(messages: Vec<Message>) -> (sent: Vec<Message>)
    ensures
        message_views(sent@) == framed(message_views(messages@)),
{
    let mut sent = messages;
    if sent.len() > 0 {
        let first = &sent[0];
        let mut content = String::from_str(INITIAL_PROMPT);
        content.append(first.content.as_str());
        let opened = Message { content, role: first.role.clone() };
        sent.set(0, opened);
        assert(message_views(sent@) =~= framed(message_views(messages@)));
    }
    sent
}

/// The layout of one message in the request body. Text and role are
/// given as the JSON strings that they are written as.
pub open spec fn message_layout(content: Seq<char>, role: Seq<char>) -> Seq<char> {
    "{\"content\":"@ + content + ",\"role\":"@ + role + "}"@
}

/// One message as a member of the request body.
pub open spec fn message_json(message: MessageView) -> Seq<char> {
    message_layout(json_string(message.content), json_string(message.role))
}

/// The messages one after the other, a comma between two.
pub open spec fn messages_json(messages: Seq<MessageView>) -> Seq<char>
    decreases messages.len(),
{
    if messages.len() == 0 {
        Seq::<char>::empty()
    } else if messages.len() == 1 {
        message_json(messages[0])
    } else {
        messages_json(messages.drop_last()) + ","@ + message_json(messages.last())
    }
}

/// The layout of the request body: a JSON object with the model's name
/// and the messages, without any white space between its parts. The name
/// is given as the JSON string that it is written as, the messages as the
/// text of the members of their array.
pub open spec fn request_layout(model: Seq<char>, messages: Seq<char>) -> Seq<char> {
    "{\"model\":"@ + model + ",\"messages\":["@ + messages + "]}"@
}

/// The body of a request: the model's name and the messages in their
/// order.
pub open spec fn request_json(model: Seq<char>, messages: Seq<MessageView>) -> Seq<char> {
    request_layout(json_string(model), messages_json(messages))
}

/// Appends [`message_layout`] to `out`.
pub fn push_message_layout(out: &mut String, content: &str, role: &str)
    ensures
        final(out)@ == old(out)@ + message_layout(content@, role@),
{
    out.append("{\"content\":");
    out.append(content);
    out.append(",\"role\":");
    out.append(role);
    out.append("}");
    assert(out@ =~= old(out)@ + message_layout(content@, role@));
}

/// Computes [`request_layout`].
pub fn lay_out_request(model: &str, messages: &str) -> (body: String)
    ensures
        body@ == request_layout(model@, messages@),
{
    let mut body = String::from_str("{\"model\":");
    body.append(model);
    body.append(",\"messages\":[");
    body.append(messages);
    body.append("]}");
    assert(body@ =~= request_layout(model@, messages@));
    body
}

fn push_message(out: &mut String, message: &Message)
    ensures
        final(out)@ == old(out)@ + message_json(message@),
{
    let content = quote(message.content.as_str());
    let role = quote(message.role.as_str());
    push_message_layout(out, content.as_str(), role.as_str());
}

/// Writes the body of a request.
pub fn request_body(model: &str, messages: &Vec<Message>) -> (body: String)
    ensures
        body@ == request_json(model@, message_views(messages@)),
{
    let ghost views = message_views(messages@);
    let mut members = String::new();
    let mut i: usize = 0;
    assert(members@ =~= messages_json(views.take(0)));
    while i < messages.len()
        invariant
            i <= messages.len(),
            views == message_views(messages@),
            members@ == messages_json(views.take(i as int)),
        decreases messages.len() - i,
    {
        if i > 0 {
            members.append(",");
        }
        push_message(&mut members, &messages[i]);
        proof {
            let before = views.take(i as int);
            let now = views.take(i + 1);
            assert(now.drop_last() == before);
            assert(now.last() == messages[i as int]@);
            assert(members@ =~= messages_json(now));
        }
        i = i + 1;
    }
    assert(views.take(i as int) == views);
    lay_out_request(quote(model).as_str(), members.as_str())
}

/// What is handed to the HTTP layer for one completion: where to post,
/// the two headers, and the body.
#[derive(Debug)]
pub struct ApiRequest {
    pub url: String,
    pub authorization: String,
    pub content_type: String,
    pub body: String,
}

/// What an [`ApiRequest`] holds, as mathematical values.
pub struct ApiRequestView {
    pub url: Seq<char>,
    pub authorization: Seq<char>,
    pub content_type: Seq<char>,
    pub body: Seq<char>,
}

impl View for ApiRequest {
    type V = ApiRequestView;

    open spec fn view(&self) -> ApiRequestView {
        ApiRequestView {
            url: self.url@,
            authorization: self.authorization@,
            content_type: self.content_type@,
            body: self.body@,
        }
    }
}

/// The request that carries `messages` to `model` for the holder of
/// `auth_token`.
pub open spec fn api_request(
    auth_token: Seq<char>,
    model: Seq<char>,
    messages: Seq<MessageView>,
) -> ApiRequestView {
    ApiRequestView {
        url: COMPLETIONS_URL@,
        authorization: "Bearer "@ + auth_token,
        content_type: "application/json"@,
        body: request_json(model, messages),
    }
}

/// Builds the request for messages that are framed already.
pub fn build_request(auth_token: &str, model: &str, messages: &Vec<Message>) -> (request:
    ApiRequest)
    ensures
        request@ == api_request(auth_token@, model@, message_views(messages@)),
{
    let mut authorization = String::from_str("Bearer ");
    authorization.append(auth_token);
    ApiRequest {
        url: String::from_str(COMPLETIONS_URL),
        authorization,
        content_type: String::from_str("application/json"),
        body: request_body(model, messages),
    }
}

/// Why a send brought no entry.
#[derive(Debug)]
pub enum TransportError {
    /// The request got no answer. Holds what the HTTP layer said.
    Network(String),
    /// The service answered with an error object. Holds its message.
    Service(String),
    /// The answer is not what the service promises: no JSON, an error
    /// object without a message, or a member missing or out of range.
    Malformed,
}

/// What a [`TransportError`] holds, as mathematical values.
pub enum ErrorView {
    Network(Seq<char>),
    Service(Seq<char>),
    Malformed,
}

impl View for TransportError {
    type V = ErrorView;

    open spec fn view(&self) -> ErrorView {
        match self {
            TransportError::Network(words) => ErrorView::Network(words@),
            TransportError::Service(words) => ErrorView::Service(words@),
            TransportError::Malformed => ErrorView::Malformed,
        }
    }
}

/// An error in words, never empty: the words of the HTTP layer or of the
/// service where they said any, and a fixed sentence where they said
/// none or where the answer could not be read.
pub open spec fn error_words(error: ErrorView) -> Seq<char> {
    match error {
        ErrorView::Network(words) => if words.len() > 0 {
            words
        } else {
            "the request got no answer"@
        },
        ErrorView::Service(words) => if words.len() > 0 {
            words
        } else {
            "the service reported an error without a message"@
        },
        ErrorView::Malformed => "the answer of the service could not be read"@,
    }
}

/// Every error has words.
pub proof fn lemma_error_words_not_empty(error: ErrorView)
    ensures
        error_words(error).len() > 0,
{
    reveal_strlit("the request got no answer");
    reveal_strlit("the service reported an error without a message");
    reveal_strlit("the answer of the service could not be read");
}

impl TransportError {
    /// Computes [`error_words`].
    pub fn describe(&self) -> (words: String)
        ensures
            words@ == error_words(self@),
            words@.len() > 0,
    {
        proof {
            lemma_error_words_not_empty(self@);
        }
        match self {
            TransportError::Network(words) => {
                if words.as_str().is_empty() {
                    String::from_str("the request got no answer")
                } else {
                    words.clone()
                }
            },
            TransportError::Service(words) => {
                if words.as_str().is_empty() {
                    String::from_str("the service reported an error without a message")
                } else {
                    words.clone()
                }
            },
            TransportError::Malformed => String::from_str(
                "the answer of the service could not be read",
            ),
        }
    }
}

/// What is read of the service's answer: `None` where a member is missing
/// or is not of its kind.
pub struct Reply {
    /// Whether the answer has a member `error` that is an object.
    pub failed: bool,
    /// The member `message` of that object, a string.
    pub error_message: Option<String>,
    /// `usage.prompt_tokens`, an integer.
    pub prompt_tokens: Option<i64>,
    /// `usage.completion_tokens`, an integer.
    pub completion_tokens: Option<i64>,
    /// `choices[0].message.content`, a string.
    pub content: Option<String>,
}

/// What a [`Reply`] holds, as mathematical values.
pub struct ReplyView {
    pub failed: bool,
    pub error_message: Option<Seq<char>>,
    pub prompt_tokens: Option<i64>,
    pub completion_tokens: Option<i64>,
    pub content: Option<Seq<char>>,
}

impl View for Reply {
    type V = ReplyView;

    open spec fn view(&self) -> ReplyView {
        ReplyView {
            failed: self.failed,
            error_message: text_view(self.error_message),
            prompt_tokens: self.prompt_tokens,
            completion_tokens: self.completion_tokens,
            content: text_view(self.content),
        }
    }
}

/// Whether a reply holds all that an entry is made of: the reply's text
/// and the two token counts, each within 32 bits.
pub open spec fn reply_is_complete(reply: ReplyView) -> bool {
    &&& reply.content is Some
    &&& reply.prompt_tokens is Some
    &&& reply.completion_tokens is Some
    &&& 0 <= reply.prompt_tokens->0 <= u32::MAX
    &&& 0 <= reply.completion_tokens->0 <= u32::MAX
}

/// What a reply means for the message that was sent last with text `sent`.
/// An error object wins over everything else; else a complete reply gives
/// the entry, whose prompt is `sent` without the preamble.
pub open spec fn reply_outcome(reply: ReplyView, sent: Seq<char>) -> Result<EntryView, ErrorView> {
    if reply.failed {
        match reply.error_message {
            Some(message) => Err(ErrorView::Service(message)),
            None => Err(ErrorView::Malformed),
        }
    } else if reply_is_complete(reply) {
        Ok(
            EntryView {
                message: remove_all(sent, INITIAL_PROMPT@),
                response: reply.content->0,
                num_tokens_message: reply.prompt_tokens->0 as nat,
                num_tokens_response: reply.completion_tokens->0 as nat,
            },
        )
    } else {
        Err(ErrorView::Malformed)
    }
}

/// The view of the result of a send.
pub open spec fn outcome_view(outcome: Result<ChatLogEntry, TransportError>) -> Result<
    EntryView,
    ErrorView,
> {
    match outcome {
        Ok(entry) => Ok(entry@),
        Err(error) => Err(error@),
    }
}

/// Makes the entry that a reply gives, or says why it gives none.
pub fn entry_from_reply(reply: &Reply, sent: &str) -> (outcome: Result<
    ChatLogEntry,
    TransportError,
>)
    ensures
        outcome_view(outcome) == reply_outcome(reply@, sent@),
{
    if reply.failed {
        return match &reply.error_message {
            Some(message) => Err(TransportError::Service(message.clone())),
            None => Err(TransportError::Malformed),
        };
    }
    match (&reply.content, reply.prompt_tokens, reply.completion_tokens) {
        (Some(content), Some(prompt_tokens), Some(completion_tokens)) => {
            if 0 <= prompt_tokens && prompt_tokens <= u32::MAX as i64 && 0 <= completion_tokens
                && completion_tokens <= u32::MAX as i64 {
                Ok(
                    ChatLogEntry {
                        message: strip_all(sent, INITIAL_PROMPT),
                        response: content.clone(),
                        num_tokens_message: prompt_tokens as u32,
                        num_tokens_response: completion_tokens as u32,
                    },
                )
            } else {
                Err(TransportError::Malformed)
            }
        },
        _ => Err(TransportError::Malformed),
    }
}

/// The text of the first choice of an answer: of the member `choices`,
/// an array, the first element's member `message`, and of that the member
/// `content`, a string.
pub open spec fn first_choice_text(document: serde_json::Value) -> Option<Seq<char>> {
    match json_member(document, "choices"@) {
        Some(choices) => match json_elements(choices) {
            Some(list) => if list.len() > 0 {
                match json_member(list[0], "message"@) {
                    Some(message) => member_text(message, "content"@),
                    None => None,
                }
            } else {
                None
            },
            None => None,
        },
        None => None,
    }
}

/// What an answer of the service holds for a send.
pub open spec fn reply_of(document: serde_json::Value) -> ReplyView {
    let error = json_member(document, "error"@);
    let failed = error is Some && json_is_object(error->0);
    let usage = json_member(document, "usage"@);
    ReplyView {
        failed,
        error_message: if failed {
            member_text(error->0, "message"@)
        } else {
            None
        },
        prompt_tokens: match usage {
            Some(counts) => member_signed(counts, "prompt_tokens"@),
            None => None,
        },
        completion_tokens: match usage {
            Some(counts) => member_signed(counts, "completion_tokens"@),
            None => None,
        },
        content: first_choice_text(document),
    }
}

/// Reads the service's answer: [`reply_of`] the document that the body
/// holds, and `None` where it holds none.
pub fn read_reply(body: &str) -> (reply: Option<Reply>)
    ensures
        match reply {
            Some(read) => json_document(body@) matches Ok(document) && read@ == reply_of(
                document,
            ),
            None => json_document(body@) is Err,
        },
{
    let document = match parse_document(body) {
        Ok(document) => document,
        Err(_) => {
            return None;
        },
    };
    let mut reply = Reply {
        failed: false,
        error_message: None,
        prompt_tokens: None,
        completion_tokens: None,
        content: None,
    };
    match member(&document, "error") {
        Some(error) => {
            if error.is_object() {
                reply.failed = true;
                reply.error_message = text_member(error, "message");
            }
        },
        None => {},
    }
    match member(&document, "usage") {
        Some(usage) => {
            reply.prompt_tokens = signed_member(usage, "prompt_tokens");
            reply.completion_tokens = signed_member(usage, "completion_tokens");
        },
        None => {},
    }
    match member(&document, "choices") {
        Some(choices) => match choices.as_array() {
            Some(list) => {
                if list.len() > 0 {
                    match member(&list[0], "message") {
                        Some(message) => {
                            reply.content = text_member(message, "content");
                        },
                        None => {},
                    }
                }
            },
            None => {},
        },
        None => {},
    }
    Some(reply)
}

/// The view of what the HTTP layer brought back.
pub open spec fn answer_view(answer: Result<String, String>) -> Result<Seq<char>, Seq<char>> {
    match answer {
        Ok(body) => Ok(body@),
        Err(words) => Err(words@),
    }
}

/// What a send comes to when the HTTP layer brought back `answer` and the
/// last message had the text `sent`. Without an answer the error is
/// `Network` with the words of the HTTP layer. A body that is no JSON is
/// `Malformed`; any other is read ([`reply_of`]) and judged
/// ([`reply_outcome`]).
pub open spec fn settled(answer: Result<Seq<char>, Seq<char>>, sent: Seq<char>) -> Result<
    EntryView,
    ErrorView,
> {
    match answer {
        Err(words) => Err(ErrorView::Network(words)),
        Ok(body) => match json_document(body) {
            Ok(document) => reply_outcome(reply_of(document), sent),
            Err(_) => Err(ErrorView::Malformed),
        },
    }
}

/// Computes [`settled`].
pub fn settle(answer: Result<String, String>, sent: &str) -> (outcome: Result<
    ChatLogEntry,
    TransportError,
>)
    ensures
        outcome_view(outcome) == settled(answer_view(answer), sent@),
        outcome matches Err(error) ==> error_words(error@).len() > 0,
{
    proof {
        if settled(answer_view(answer), sent@) is Err {
            lemma_error_words_not_empty(settled(answer_view(answer), sent@)->Err_0);
        }
    }
    match answer {
        Err(words) => Err(TransportError::Network(words)),
        Ok(body) => match read_reply(body.as_str()) {
            Some(reply) => entry_from_reply(&reply, sent),
            None => Err(TransportError::Malformed),
        },
    }
}

/// What is recorded as the prompt of an entry is the text that was sent
/// without the preamble, whatever the service answered.
pub proof fn lemma_settled_prompt(answer: Result<Seq<char>, Seq<char>>, sent: Seq<char>)
    ensures
        settled(answer, sent) matches Ok(entry) ==> entry.message == remove_all(
            sent,
            INITIAL_PROMPT@,
        ),
{
}

/// The preamble does not show in what is recorded: a text sent with the
/// preamble in front settles as the text alone does.
pub proof fn lemma_settled_without_preamble(answer: Result<Seq<char>, Seq<char>>, text: Seq<char>)
    ensures
        settled(answer, INITIAL_PROMPT@ + text) == settled(answer, text),
{
    lemma_remove_all_after_prefix(text, INITIAL_PROMPT@);
}

} // verus!
