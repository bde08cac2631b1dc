use vstd::prelude::*;
use vstd::string::StringExecFns;
use crate::completion::{
    answer_view, api_request, build_request, error_words, frame, framed,
    lemma_settled_without_preamble, outcome_view, settle, settled, ApiRequest, ApiRequestView,
    TransportError,
};
use crate::clock::{local_now, session_name, session_name_at, ClockReading};
use crate::transcript::{
    decode_transcript, decoded_transcript, encode_transcript, transcript_json, TranscriptError,
};
use crate::window::{build_window, window};

verus! {

/// What a [`ChatLogEntry`] holds, as mathematical values.
pub struct EntryView {
    pub message: Seq<char>,
    pub response: Seq<char>,
    pub num_tokens_message: nat,
    pub num_tokens_response: nat,
}

/// One completed exchange: the prompt as it is kept, the reply, and the
/// token counts that the completion service reported for the two.
#[derive(Debug)]
pub struct ChatLogEntry {
    pub message: String,
    pub response: String,
    pub num_tokens_message: u32,
    pub num_tokens_response: u32,
}

impl View for ChatLogEntry {
    type V = EntryView;

    open spec fn view(&self) -> EntryView {
        EntryView {
            message: self.message@,
            response: self.response@,
            num_tokens_message: self.num_tokens_message as nat,
            num_tokens_response: self.num_tokens_response as nat,
        }
    }
}

impl Clone for ChatLogEntry {
    fn clone(&self) -> (copy: Self)
        ensures
            copy == *self,
    {
        Self {
            message: self.message.clone(),
            response: self.response.clone(),
            num_tokens_message: self.num_tokens_message,
            num_tokens_response: self.num_tokens_response,
        }
    }
}

impl ChatLogEntry {
    /// An entry with the given texts and no token counts yet.
    pub fn new(message: &str, response: &str) -> (entry: Self)
        ensures
            entry@ == (EntryView {
                message: message@,
                response: response@,
                num_tokens_message: 0,
                num_tokens_response: 0,
            }),
    {
        Self {
            message: String::from_str(message),
            response: String::from_str(response),
            num_tokens_message: 0,
            num_tokens_response: 0,
        }
    }
}

/// The views of a run of entries, in the same order.
pub open spec fn entry_views(entries: Seq<ChatLogEntry>) -> Seq<EntryView> {
    entries.map_values(|e: ChatLogEntry| e@)
}

/// What a [`Message`] holds, as mathematical values.
pub struct MessageView {
    pub content: Seq<char>,
    pub role: Seq<char>,
}

/// One unit of an outgoing request: a text and the role that said it.
#[derive(Debug)]
pub struct Message {
    pub content: String,
    pub role: String,
}

impl View for Message {
    type V = MessageView;

    open spec fn view(&self) -> MessageView {
        MessageView { content: self.content@, role: self.role@ }
    }
}

impl Clone for Message {
    fn clone(&self) -> (copy: Self)
        ensures
            copy == *self,
    {
        Self { content: self.content.clone(), role: self.role.clone() }
    }
}

impl Message {
    /// A message with the given text and role.
    pub fn new(content: &str, role: &str) -> (message: Self)
        ensures
            message@ == (MessageView { content: content@, role: role@ }),
    {
        Self { content: String::from_str(content), role: String::from_str(role) }
    }
}

/// The views of a run of messages, in the same order.
pub open spec fn message_views(messages: Seq<Message>) -> Seq<MessageView> {
    messages.map_values(|m: Message| m@)
}

/// The role of what the user typed.
pub open spec fn user_role() -> Seq<char> {
    "user"@
}

/// The role of what the service replied.
pub open spec fn assistant_role() -> Seq<char> {
    "assistant"@
}

/// A message of the user, as a view.
pub open spec fn user_message(content: Seq<char>) -> MessageView {
    MessageView { content, role: user_role() }
}

/// A message of the assistant, as a view.
pub open spec fn assistant_message(content: Seq<char>) -> MessageView {
    MessageView { content, role: assistant_role() }
}

/// What is needed to ask the completion service: the key that it is asked
/// with and the model that is asked. The HTTP connection itself belongs to
/// the caller.
pub struct ChatGPTClient {
    pub auth_token: String,
    pub model: String,
}

impl ChatGPTClient {
    /// A client that asks `model` with the key `auth_token`.
    pub fn new(auth_token: &str, model: &str) -> (client: Self)
        ensures
            client.auth_token@ == auth_token@,
            client.model@ == model@,
    {
        Self { auth_token: String::from_str(auth_token), model: String::from_str(model) }
    }

    /// The request that this client makes of a window.
    pub open spec fn request_of(&self, messages: Seq<MessageView>) -> ApiRequestView {
        api_request(self.auth_token@, self.model@, framed(messages))
    }

    /// Sends one window and brings back the entry of the exchange. The
    /// window is framed, made into a request and handed to `post`, which
    /// does the HTTP work and answers with the body of the reply or with
    /// its own words on why there is none; that answer is then settled.
    pub fn send_request<F: FnOnce(ApiRequest) -> Result<String, String>>(
        &self,
        messages: Vec<Message>,
        post: F,
    ) -> (outcome: Result<ChatLogEntry, TransportError>)
        requires
            messages@.len() > 0,
            forall|request: ApiRequest|
                request@ == self.request_of(message_views(messages@)) ==> call_requires(
                    post,
                    (request,),
                ),
        ensures
            exists|request: ApiRequest, answer: Result<String, String>|
                {
                    &&& request@ == self.request_of(message_views(messages@))
                    &&& #[trigger] call_ensures(post, (request,), answer)
                    &&& outcome_view(outcome) == settled(
                        answer_view(answer),
                        messages@.last().content@,
                    )
                },
            outcome matches Err(error) ==> error_words(error@).len() > 0,
    {
        let ghost asked = message_views(messages@);
        let sent = frame(messages);
        let request = build_request(self.auth_token.as_str(), self.model.as_str(), &sent);
        let ghost handed = request;
        let answer = post(request);
        assert(call_ensures(post, (handed,), answer));
        let last = &sent[sent.len() - 1];
        proof {
            assert(message_views(sent@)[sent.len() - 1] == last@);
            if sent.len() == 1 {
                lemma_settled_without_preamble(answer_view(answer), asked[0].content);
            }
        }
        settle(answer, last.content.as_str())
    }

    /// A session of this client with the token budget `max_tokens`.
    pub fn new_session(self, max_tokens: u32) -> (session: ChatGPTSession)
        ensures
            session.transcript() == Seq::<EntryView>::empty(),
            session.token_budget() == max_tokens,
            session.auth_token() == self.auth_token@,
            session.model() == self.model@,
            exists|at: ClockReading| at.in_range() && session.name() == session_name(at),
    {
        ChatGPTSession::new(self, max_tokens)
    }
}

/// A conversation: the transcript of its exchanges, the token budget that
/// bounds what of it is replayed, the name it is saved under, and the
/// client that its requests go through. The budget is fixed when the
/// session is made. The transcript grows by one entry for each send that
/// succeeds, and is replaced only by `reset`, `load` and `with_log_file`.
pub struct ChatGPTSession {
    name: String,
    chatlog: Vec<ChatLogEntry>,
    max_tokens: u32,
    client: ChatGPTClient,
}

impl ChatGPTSession {
    /// The transcript, oldest exchange first.
    pub closed spec fn transcript(&self) -> Seq<EntryView> {
        entry_views(self.chatlog@)
    }

    /// The token budget.
    pub closed spec fn token_budget(&self) -> nat {
        self.max_tokens as nat
    }

    /// The name that the session is saved under.
    pub closed spec fn name(&self) -> Seq<char> {
        self.name@
    }

    /// The key that the session's client asks with.
    pub closed spec fn auth_token(&self) -> Seq<char> {
        self.client.auth_token@
    }

    /// The model that the session's client asks.
    pub closed spec fn model(&self) -> Seq<char> {
        self.client.model@
    }

    /// What stays as it is for the life of a session: budget and client.
    pub open spec fn same_setup(&self, other: &Self) -> bool {
        &&& self.token_budget() == other.token_budget()
        &&& self.auth_token() == other.auth_token()
        &&& self.model() == other.model()
    }

    /// The window that a send of `text` would build now.
    pub open spec fn window_for(&self, text: Seq<char>) -> Seq<MessageView> {
        window(self.transcript(), self.token_budget(), text)
    }

    /// The request that a send of `text` would hand to the HTTP layer now.
    pub open spec fn request_for(&self, text: Seq<char>) -> ApiRequestView {
        api_request(self.auth_token(), self.model(), framed(self.window_for(text)))
    }

    /// The name of a session that starts now.
    fn generate_session_name() -> (name: String)
        ensures
            exists|at: ClockReading| at.in_range() && name@ == session_name(at),
    {
        let now = local_now();
        session_name_at(&now)
    }

    /// A session without history, named after the time it is made at.
    pub fn new(client: ChatGPTClient, max_tokens: u32) -> (session: Self)
        ensures
            session.transcript() == Seq::<EntryView>::empty(),
            session.token_budget() == max_tokens,
            session.auth_token() == client.auth_token@,
            session.model() == client.model@,
            exists|at: ClockReading| at.in_range() && session.name() == session_name(at),
    {
        let session = Self {
            name: Self::generate_session_name(),
            chatlog: Vec::new(),
            max_tokens,
            client,
        };
        assert(session.transcript() =~= Seq::<EntryView>::empty());
        session
    }

    /// Replaces the transcript by `entries`.
    pub fn load(&mut self, entries: Vec<ChatLogEntry>)
        ensures
            final(self).transcript() == entry_views(entries@),
            final(self).same_setup(old(self)),
            final(self).name() == old(self).name(),
    {
        self.chatlog = entries;
    }

    /// The session with the transcript that the text of a transcript file
    /// holds. A text that holds none leaves no session behind, only the
    /// reason.
    pub fn with_log_file(self, contents: &str) -> (loaded: Result<Self, TranscriptError>)
        ensures
            match loaded {
                Ok(session) => {
                    &&& decoded_transcript(contents@) == Ok::<
                        Seq<EntryView>,
                        crate::transcript::TranscriptErrorView,
                    >(session.transcript())
                    &&& session.same_setup(&self)
                    &&& session.name() == self.name()
                },
                Err(error) => decoded_transcript(contents@) == Err::<
                    Seq<EntryView>,
                    crate::transcript::TranscriptErrorView,
                >(error@),
            },
    {
        let mut session = self;
        match decode_transcript(contents) {
            Ok(entries) => {
                session.load(entries);
                Ok(session)
            },
            Err(error) => Err(error),
        }
    }

    /// Forgets the transcript and names the session anew. Budget and client
    /// stay.
    pub fn reset(&mut self)
        ensures
            final(self).transcript() == Seq::<EntryView>::empty(),
            final(self).same_setup(old(self)),
            exists|at: ClockReading| at.in_range() && final(self).name() == session_name(at),
    {
        self.chatlog = Vec::new();
        self.name = Self::generate_session_name();
        assert(self.transcript() =~= Seq::<EntryView>::empty());
    }

    /// The transcript, oldest exchange first.
    pub fn get_chatlog(&self) -> (chatlog: &Vec<ChatLogEntry>)
        ensures
            entry_views(chatlog@) == self.transcript(),
    {
        &self.chatlog
    }

    /// The token budget.
    pub fn max_tokens(&self) -> (budget: u32)
        ensures
            budget == self.token_budget(),
    {
        self.max_tokens
    }

    /// The file that `save_chatlog` writes: the session's name and `.json`.
    pub fn chatlog_filename(&self) -> (filename: String)
        ensures
            filename@ == self.name() + ".json"@,
    {
        let mut filename = self.name.clone();
        filename.append(".json");
        filename
    }

    /// The text of the transcript file of this session.
    pub fn chatlog_json(&self) -> (text: String)
        ensures
            text@ == transcript_json(self.transcript()),
    {
        encode_transcript(&self.chatlog)
    }

    /// Saves the transcript under the session's own file name, and says
    /// which that was. `write` takes a path and a text and does the
    /// writing; where it fails, its words are the error.
    pub fn save_chatlog<W: FnOnce(String, String) -> Result<(), String>>(&self, write: W) -> (saved:
        Result<String, String>)
        requires
            forall|path: String, text: String|
                path@ == self.name() + ".json"@ && text@ == transcript_json(self.transcript())
                    ==> call_requires(write, (path, text)),
        ensures
            saved matches Ok(filename) ==> filename@ == self.name() + ".json"@ && exists|
                path: String,
                text: String,
            |
                path@ == self.name() + ".json"@ && text@ == transcript_json(self.transcript())
                    && #[trigger] call_ensures(write, (path, text), Ok::<(), String>(())),
            saved is Err ==> exists|path: String, text: String|
                path@ == self.name() + ".json"@ && text@ == transcript_json(self.transcript())
                    && #[trigger] call_ensures(
                    write,
                    (path, text),
                    Err::<(), String>(saved->Err_0),
                ),
    {
        let filename = self.chatlog_filename();
        let written = self.save_chatlog_to_path(filename.as_str(), write);
        let ghost (path, text) = choose|path: String, text: String|
            path@ == filename@ && text@ == transcript_json(self.transcript())
                && #[trigger] call_ensures(write, (path, text), written);
        let saved = match written {
            Ok(done) => {
                assert(done == ());
                assert(call_ensures(write, (path, text), Ok::<(), String>(())));
                Ok(filename)
            },
            Err(words) => {
                assert(call_ensures(write, (path, text), Err::<(), String>(words)));
                Err(words)
            },
        };
        assert(saved is Err ==> call_ensures(write, (path, text), Err::<(), String>(saved->Err_0)));
        saved
    }

    /// Saves the transcript at `path`: hands `write` the path and the text
    /// of the transcript file, and passes its answer on.
    pub fn save_chatlog_to_path<W: FnOnce(String, String) -> Result<(), String>>(
        &self,
        path: &str,
        write: W,
    ) -> (saved: Result<(), String>)
        requires
            forall|to: String, text: String|
                to@ == path@ && text@ == transcript_json(self.transcript()) ==> call_requires(
                    write,
                    (to, text),
                ),
        ensures
            exists|to: String, text: String|
                to@ == path@ && text@ == transcript_json(self.transcript()) && #[trigger] call_ensures(
                    write,
                    (to, text),
                    saved,
                ),
    {
        let to = String::from_str(path);
        let text = self.chatlog_json();
        let saved = write(to, text);
        assert(call_ensures(write, (to, text), saved));
        saved
    }

    /// Builds the request window for a new message: see [`window`].
    pub fn request_window(&self, message: &str) -> (request: Vec<Message>)
        ensures
            message_views(request@) == self.window_for(message@),
    {
        build_window(&self.chatlog, self.max_tokens, message)
    }

    /// Takes in what a send came to. An entry is put at the end of the
    /// transcript; an error changes nothing. Either is handed back.
    pub fn record(&mut self, outcome: Result<ChatLogEntry, TransportError>) -> (recorded: Result<
        ChatLogEntry,
        TransportError,
    >)
        ensures
            recorded == outcome,
            final(self).same_setup(old(self)),
            final(self).name() == old(self).name(),
            final(self).transcript() == match outcome {
                Ok(entry) => old(self).transcript().push(entry@),
                Err(_) => old(self).transcript(),
            },
    {
        match outcome {
            Ok(entry) => {
                self.chatlog.push(entry.clone());
                assert(self.transcript() =~= old(self).transcript().push(entry@));
                Ok(entry)
            },
            Err(error) => Err(error),
        }
    }

    /// Sends a new message of the user: builds the window, has the client
    /// send it through `post`, and records what came of it. A send that
    /// fails leaves the session as it was.
    pub fn send_message<F: FnOnce(ApiRequest) -> Result<String, String>>(
        &mut self,
        message: &str,
        post: F,
    ) -> (outcome: Result<ChatLogEntry, TransportError>)
        requires
            forall|request: ApiRequest|
                request@ == old(self).request_for(message@) ==> call_requires(post, (request,)),
        ensures
            final(self).same_setup(old(self)),
            final(self).name() == old(self).name(),
            final(self).transcript() == match outcome {
                Ok(entry) => old(self).transcript().push(entry@),
                Err(_) => old(self).transcript(),
            },
            exists|request: ApiRequest, answer: Result<String, String>|
                {
                    &&& request@ == old(self).request_for(message@)
                    &&& #[trigger] call_ensures(post, (request,), answer)
                    &&& outcome_view(outcome) == settled(answer_view(answer), message@)
                },
            outcome matches Err(error) ==> error_words(error@).len() > 0,
    {
        let messages = self.request_window(message);
        proof {
            crate::window::lemma_window_shape(self.transcript(), self.token_budget(), message@);
            assert(message_views(messages@).last() == messages@.last()@);
        }
        let outcome = self.client.send_request(messages, post);
        self.record(outcome)
    }
}

/// A session without history asks with the new message alone: after
/// `reset`, as in a session that was just made, the window of any text is
/// that one message of the user, whatever the budget.
pub proof fn lemma_empty_session_sends_one_message(session: ChatGPTSession, text: Seq<char>)
    requires
        session.transcript() == Seq::<EntryView>::empty(),
    ensures
        session.window_for(text) == seq![user_message(text)],
{
    crate::window::lemma_window_of_empty_transcript(session.token_budget(), text);
}

} // verus!
