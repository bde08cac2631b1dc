use vstd::prelude::*;
use vstd::string::{StrSliceExecFns, StringExecFns};
use crate::api::{entry_views, ChatGPTSession, ChatLogEntry, EntryView};
use crate::completion::{
    answer_view, error_words, outcome_view, settled, ApiRequest, ErrorView, TransportError,
};
use crate::transcript::transcript_json;
use crate::text::{trim, trimmed};

verus! {

/// What the event loop is asked to do.
#[derive(Debug)]
pub enum UiEvent {
    Quit,
    SendMessage(String),
    SaveSession,
}

/// What a [`UiEvent`] holds, as mathematical values.
pub enum UiEventView {
    Quit,
    SendMessage(Seq<char>),
    SaveSession,
}

impl View for UiEvent {
    type V = UiEventView;

    open spec fn view(&self) -> UiEventView {
        match self {
            UiEvent::Quit => UiEventView::Quit,
            UiEvent::SendMessage(text) => UiEventView::SendMessage(text@),
            UiEvent::SaveSession => UiEventView::SaveSession,
        }
    }
}

impl Clone for UiEvent {
    fn clone(&self) -> (copy: Self)
        ensures
            copy == *self,
    {
        match self {
            UiEvent::Quit => UiEvent::Quit,
            UiEvent::SendMessage(text) => UiEvent::SendMessage(text.clone()),
            UiEvent::SaveSession => UiEvent::SaveSession,
        }
    }
}

/// The keys and mouse moves that the controller tells apart.
#[derive(Debug, Clone, Copy)]
pub enum Key {
    Char(char),
    Enter,
    Esc,
    MouseScrollDown,
    MouseScrollUp,
    /// Any other key.
    Other,
}

/// Whether an input of this kind is a stroke on the keyboard: all are but
/// the two moves of the mouse wheel.
pub open spec fn is_keystroke(key: Key) -> bool {
    !(key is MouseScrollDown || key is MouseScrollUp)
}

/// One input from the terminal: a key and the modifiers held with it.
#[derive(Debug, Clone, Copy)]
pub struct Input {
    pub key: Key,
    pub ctrl: bool,
    pub alt: bool,
}

/// What the controller does with one input.
#[derive(Debug)]
pub enum Reaction {
    /// Hand the event to the event loop. With `SendMessage` the input line
    /// is cleared.
    Event(UiEvent),
    /// Scroll the display buffer down. Input line and session stay.
    ScrollDown,
    /// Scroll the display buffer up. Input line and session stay.
    ScrollUp,
    /// Pass the input on to the editor of the input line.
    Edit,
    /// Do nothing.
    Ignore,
}

/// What a [`Reaction`] holds, as mathematical values.
pub enum ReactionView {
    Event(UiEventView),
    ScrollDown,
    ScrollUp,
    Edit,
    Ignore,
}

impl View for Reaction {
    type V = ReactionView;

    open spec fn view(&self) -> ReactionView {
        match self {
            Reaction::Event(event) => ReactionView::Event(event@),
            Reaction::ScrollDown => ReactionView::ScrollDown,
            Reaction::ScrollUp => ReactionView::ScrollUp,
            Reaction::Edit => ReactionView::Edit,
            Reaction::Ignore => ReactionView::Ignore,
        }
    }
}

/// The reaction to `input` while the input line holds `line`.
///
/// Escape quits and Ctrl+S without Alt saves, whatever the line holds. The
/// mouse wheel scrolls the display buffer. Enter submits the line without
/// the white space at its ends, and does nothing where that leaves no
/// text. Ctrl+M, which would break the line, is dropped. Everything else
/// is for the editor of the input line.
pub open spec fn reaction_to(input: Input, line: Seq<char>) -> ReactionView {
    match input.key {
        Key::Esc => ReactionView::Event(UiEventView::Quit),
        Key::MouseScrollDown => ReactionView::ScrollDown,
        Key::MouseScrollUp => ReactionView::ScrollUp,
        Key::Enter => if trimmed(line).len() > 0 {
            ReactionView::Event(UiEventView::SendMessage(trimmed(line)))
        } else {
            ReactionView::Ignore
        },
        Key::Char(c) => if c == 's' && input.ctrl && !input.alt {
            ReactionView::Event(UiEventView::SaveSession)
        } else if c == 'm' && input.ctrl {
            ReactionView::Ignore
        } else {
            ReactionView::Edit
        },
        Key::Other => ReactionView::Edit,
    }
}

/// Computes [`reaction_to`].
pub fn react(input: &Input, line: &str) -> (reaction: Reaction)
    ensures
        reaction@ == reaction_to(*input, line@),
{
    match input.key {
        Key::Esc => Reaction::Event(UiEvent::Quit),
        Key::MouseScrollDown => Reaction::ScrollDown,
        Key::MouseScrollUp => Reaction::ScrollUp,
        Key::Enter => {
            let text = trim(line);
            if text.as_str().unicode_len() > 0 {
                Reaction::Event(UiEvent::SendMessage(text))
            } else {
                Reaction::Ignore
            }
        },
        Key::Char(c) => {
            if c == 's' && input.ctrl && !input.alt {
                Reaction::Event(UiEvent::SaveSession)
            } else if c == 'm' && input.ctrl {
                Reaction::Ignore
            } else {
                Reaction::Edit
            }
        },
        Key::Other => Reaction::Edit,
    }
}

/// The views of a run of lines, in the same order.
pub open spec fn line_views(lines: Seq<String>) -> Seq<Seq<char>> {
    lines.map_values(|line: String| line@)
}

/// The lines that `textwrap` breaks a text into at a width.
pub uninterp spec fn wrapped(text: Seq<char>, width: nat) -> Seq<Seq<char>>;

/// `textwrap::wrap` with a width for its options: the lines that the text
/// is broken into. How it breaks is `textwrap`'s own matter; the claim is
/// that the lines are a function of text and width alone, named
/// [`wrapped`]. It takes every width, zero too.
#[verifier::external_body]
pub(crate) fn wrap(text: &str, width: usize) -> (lines: Vec<String>)
    ensures
        line_views(lines@) == wrapped(text@, width as nat),
{
    textwrap::wrap(text, width).into_iter().map(|line| line.into_owned()).collect()
}

/// The width at which the display buffer is filled when a session is
/// opened.
pub const OPENING_WIDTH: usize = 80;

/// The height of the input box, borders included.
pub const INPUT_HEIGHT: u16 = 3;

/// What the continuation lines of a wrapped text open with.
pub const CONTINUATION: &'static str = "     ";

/// The width that a text is wrapped at in a display of width `width`: room
/// is left for the continuation's indent where the display is wide enough.
pub open spec fn wrap_width(width: nat) -> nat {
    if width > 6 {
        (width - 5) as nat
    } else {
        width
    }
}

/// The lines with the continuation's indent before all but the first.
pub open spec fn indented(lines: Seq<Seq<char>>) -> Seq<Seq<char>> {
    Seq::new(
        lines.len(),
        |i: int|
            if i == 0 {
                lines[i]
            } else {
                CONTINUATION@ + lines[i]
            },
    )
}

/// The lines that a text takes in a display of width `width`.
pub open spec fn display_lines(text: Seq<char>, width: nat) -> Seq<Seq<char>> {
    indented(wrapped(text, wrap_width(width)))
}

/// The lines that an entry takes in a display of width `width`: the
/// prompt after `You: `, then the reply after `Bot: `.
pub open spec fn entry_lines(entry: EntryView, width: nat) -> Seq<Seq<char>> {
    display_lines("You: "@ + entry.message, width) + display_lines(
        "Bot: "@ + entry.response,
        width,
    )
}

/// The lines that a transcript takes in a display of width `width`.
pub open spec fn transcript_lines(entries: Seq<EntryView>, width: nat) -> Seq<Seq<char>>
    decreases entries.len(),
{
    if entries.len() == 0 {
        Seq::<Seq<char>>::empty()
    } else {
        transcript_lines(entries.drop_last(), width) + entry_lines(entries.last(), width)
    }
}

/// Appends the pieces of a wrapped text to `lines`, with the
/// continuation's indent before all but the first.
pub fn push_indented(lines: &mut Vec<String>, pieces: &Vec<String>)
    ensures
        line_views(final(lines)@) == line_views(old(lines)@) + indented(line_views(pieces@)),
{
    let ghost target = indented(line_views(pieces@));
    let mut i: usize = 0;
    assert(line_views(lines@) =~= line_views(old(lines)@) + target.take(0));
    while i < pieces.len()
        invariant
            i <= pieces.len(),
            target == indented(line_views(pieces@)),
            line_views(lines@) == line_views(old(lines)@) + target.take(i as int),
        decreases pieces.len() - i,
    {
        let mut line = if i > 0 {
            String::from_str(CONTINUATION)
        } else {
            String::new()
        };
        line.append(pieces[i].as_str());
        assert(line@ =~= target[i as int]) by {
            assert(line_views(pieces@)[i as int] == pieces@[i as int]@);
        }
        let ghost before = line_views(lines@);
        lines.push(line);
        proof {
            assert(line_views(lines@) =~= before.push(line@));
            assert(target.take(i + 1) =~= target.take(i as int).push(target[i as int]));
        }
        i = i + 1;
    }
    assert(target.take(i as int) == target);
}

/// Appends [`display_lines`] of `text` to `lines`.
pub fn add_line_wrapped(lines: &mut Vec<String>, text: &str, width: usize)
    ensures
        line_views(final(lines)@) == line_views(old(lines)@) + display_lines(text@, width as nat),
{
    let wrap_at = if width > 6 {
        width - 5
    } else {
        width
    };
    let pieces = wrap(text, wrap_at);
    push_indented(lines, &pieces);
}

/// Appends [`entry_lines`] of `entry` to `lines`.
pub fn add_chatlog_entry(lines: &mut Vec<String>, entry: &ChatLogEntry, width: usize)
    ensures
        line_views(final(lines)@) == line_views(old(lines)@) + entry_lines(entry@, width as nat),
{
    let mut prompt = String::from_str("You: ");
    prompt.append(entry.message.as_str());
    add_line_wrapped(lines, prompt.as_str(), width);
    let mut reply = String::from_str("Bot: ");
    reply.append(entry.response.as_str());
    add_line_wrapped(lines, reply.as_str(), width);
    assert(line_views(lines@) =~= line_views(old(lines)@) + entry_lines(entry@, width as nat));
}

/// The display buffer of a transcript at the opening width.
pub fn create_message_area_from_session(chatlog: &Vec<ChatLogEntry>) -> (lines: Vec<String>)
    ensures
        line_views(lines@) == transcript_lines(entry_views(chatlog@), OPENING_WIDTH as nat),
{
    let ghost entries = entry_views(chatlog@);
    let mut lines: Vec<String> = Vec::new();
    let mut i: usize = 0;
    assert(line_views(lines@) =~= transcript_lines(entries.take(0), OPENING_WIDTH as nat));
    while i < chatlog.len()
        invariant
            i <= chatlog.len(),
            entries == entry_views(chatlog@),
            line_views(lines@) == transcript_lines(entries.take(i as int), OPENING_WIDTH as nat),
        decreases chatlog.len() - i,
    {
        add_chatlog_entry(&mut lines, &chatlog[i], OPENING_WIDTH);
        proof {
            let now = entries.take(i + 1);
            assert(now.drop_last() == entries.take(i as int));
            assert(now.last() == chatlog[i as int]@);
        }
        i = i + 1;
    }
    assert(entries.take(i as int) == entries);
    lines
}

/// The width that a new entry is wrapped at in a frame of width
/// `frame_width`: four columns less, and nothing where the frame has no
/// four columns.
pub open spec fn entry_width(frame_width: u16) -> nat {
    if frame_width >= 4 {
        (frame_width - 4) as nat
    } else {
        0
    }
}

/// The annotation that a failed send leaves at the input box.
pub open spec fn send_error_text(error: ErrorView) -> Seq<char> {
    "Error: "@ + error_words(error)
}

/// What the status line says after a save.
pub open spec fn save_status_text(saved: Result<String, String>) -> Seq<char> {
    match saved {
        Ok(filename) => "Saved session to "@ + filename@,
        Err(words) => "Error: "@ + words@,
    }
}

/// The state of the interactive controller: the session, the display
/// buffer with the wrapped transcript, the annotation that a failed send
/// leaves at the input box, and the message that the status line shows at
/// the next rendering.
pub struct ChatTermApp {
    session: ChatGPTSession,
    message_area: Vec<String>,
    input_error: Option<String>,
    error_message: Option<String>,
}

impl ChatTermApp {
    /// The session.
    pub closed spec fn session(&self) -> ChatGPTSession {
        self.session
    }

    /// The lines of the display buffer.
    pub closed spec fn display(&self) -> Seq<Seq<char>> {
        line_views(self.message_area@)
    }

    /// The annotation at the input box, if there is one.
    pub closed spec fn input_error(&self) -> Option<Seq<char>> {
        match self.input_error {
            Some(words) => Some(words@),
            None => None,
        }
    }

    /// The message that waits for the status line, if there is one.
    pub closed spec fn status(&self) -> Option<Seq<char>> {
        match self.error_message {
            Some(words) => Some(words@),
            None => None,
        }
    }

    /// The controller of a session: the display buffer holds the
    /// session's transcript at the opening width, and nothing is
    /// annotated or waiting.
    pub fn new(session: ChatGPTSession) -> (app: Self)
        ensures
            app.session() == session,
            app.display() == transcript_lines(session.transcript(), OPENING_WIDTH as nat),
            app.input_error() is None,
            app.status() is None,
    {
        let message_area = create_message_area_from_session(session.get_chatlog());
        Self { session, message_area, input_error: None, error_message: None }
    }

    /// The session, to read.
    pub fn get_session(&self) -> (session: &ChatGPTSession)
        ensures
            *session == self.session(),
    {
        &self.session
    }

    /// The lines of the display buffer, to render.
    pub fn message_area(&self) -> (lines: &Vec<String>)
        ensures
            line_views(lines@) == self.display(),
    {
        &self.message_area
    }

    /// The title of the input box: `Input`, and behind it the annotation
    /// where there is one.
    pub fn input_title(&self) -> (title: String)
        ensures
            title@ == match self.input_error() {
                Some(words) => "Input: "@ + words,
                None => "Input"@,
            },
    {
        match &self.input_error {
            Some(words) => {
                let mut title = String::from_str("Input: ");
                title.append(words.as_str());
                title
            },
            None => String::from_str("Input"),
        }
    }

    /// The message for the status line of this rendering. It is shown
    /// once: none waits after this.
    pub fn take_status(&mut self) -> (message: Option<String>)
        ensures
            match message {
                Some(words) => old(self).status() == Some(words@),
                None => old(self).status() is None,
            },
            final(self).status() is None,
            final(self).session() == old(self).session(),
            final(self).display() == old(self).display(),
            final(self).input_error() == old(self).input_error(),
    {
        self.error_message.take()
    }

    /// Takes one input while the input line holds `line`: the reaction is
    /// [`reaction_to`]. Every keystroke takes the annotation of a failed
    /// send off the input box, whatever the key; the mouse wheel leaves it.
    /// Nothing else changes.
    pub fn update_ui(&mut self, input: &Input, line: &str) -> (reaction: Reaction)
        ensures
            reaction@ == reaction_to(*input, line@),
            final(self).session() == old(self).session(),
            final(self).display() == old(self).display(),
            final(self).status() == old(self).status(),
            final(self).input_error() == if is_keystroke(input.key) {
                None
            } else {
                old(self).input_error()
            },
    {
        match input.key {
            Key::MouseScrollDown => {},
            Key::MouseScrollUp => {},
            _ => {
                self.input_error = None;
            },
        }
        react(input, line)
    }

    /// Carries out one event of the event loop and says whether the loop
    /// goes on.
    ///
    /// `Quit` ends the loop and changes nothing. `SendMessage` sends the
    /// text through `post`: an entry goes to the end of the transcript and,
    /// wrapped for a frame of width `frame_width`, to the end of the display
    /// buffer; a failure leaves both as they were and annotates the input
    /// box. `SaveSession` saves through `write` and leaves the file's name,
    /// or the failure, for the status line.
    pub fn handle<
        F: FnOnce(ApiRequest) -> Result<String, String>,
        W: FnOnce(String, String) -> Result<(), String>,
    >(&mut self, event: UiEvent, frame_width: u16, post: F, write: W) -> (go_on: bool)
        requires
            event matches UiEvent::SendMessage(text) ==> forall|request: ApiRequest|
                request@ == old(self).session().request_for(text@) ==> call_requires(
                    post,
                    (request,),
                ),
            event is SaveSession ==> forall|path: String, text: String|
                path@ == old(self).session().name() + ".json"@ && text@ == transcript_json(
                    old(self).session().transcript(),
                ) ==> call_requires(write, (path, text)),
        ensures
            go_on == !(event is Quit),
            final(self).session().same_setup(&old(self).session()),
            final(self).session().name() == old(self).session().name(),
            event is Quit ==> {
                &&& final(self).session().transcript() == old(self).session().transcript()
                &&& final(self).display() == old(self).display()
                &&& final(self).input_error() == old(self).input_error()
                &&& final(self).status() == old(self).status()
            },
            event matches UiEvent::SendMessage(text) ==> final(self).status() == old(self).status(),
            event matches UiEvent::SendMessage(text) ==> exists|
                request: ApiRequest,
                answer: Result<String, String>,
            |
                {
                    &&& request@ == old(self).session().request_for(text@)
                    &&& #[trigger] call_ensures(post, (request,), answer)
                    &&& match settled(answer_view(answer), text@) {
                        Ok(entry) => {
                            &&& final(self).session().transcript() == old(
                                self,
                            ).session().transcript().push(entry)
                            &&& final(self).display() == old(self).display() + entry_lines(
                                entry,
                                entry_width(frame_width),
                            )
                            &&& final(self).input_error() == old(self).input_error()
                        },
                        Err(error) => {
                            &&& final(self).session().transcript() == old(
                                self,
                            ).session().transcript()
                            &&& final(self).display() == old(self).display()
                            &&& final(self).input_error() == Some(send_error_text(error))
                            &&& send_error_text(error).len() > 0
                        },
                    }
                },
            event is SaveSession ==> {
                &&& final(self).session().transcript() == old(self).session().transcript()
                &&& final(self).display() == old(self).display()
                &&& final(self).input_error() == old(self).input_error()
            },
            event is SaveSession ==> exists|path: String, text: String, done: Result<(), String>|
                {
                    &&& path@ == old(self).session().name() + ".json"@
                    &&& text@ == transcript_json(old(self).session().transcript())
                    &&& #[trigger] call_ensures(write, (path, text), done)
                    &&& final(self).status() == Some(
                        match done {
                            Ok(_) => "Saved session to "@ + old(self).session().name() + ".json"@,
                            Err(words) => "Error: "@ + words@,
                        },
                    )
                },
    {
        match event {
            UiEvent::Quit => false,
            UiEvent::SendMessage(text) => {
                let ghost asked = self.session.request_for(text@);
                let sent = self.session.send_message(text.as_str(), post);
                let ghost (request, answer) = choose|
                    request: ApiRequest,
                    answer: Result<String, String>,
                |
                    request@ == asked && #[trigger] call_ensures(post, (request,), answer)
                        && outcome_view(sent) == settled(answer_view(answer), text@);
                self.after_send(&sent, frame_width);
                assert(call_ensures(post, (request,), answer));
                true
            },
            UiEvent::SaveSession => {
                let ghost name = self.session.name();
                let ghost file = transcript_json(self.session.transcript());
                let saved = self.session.save_chatlog(write);
                self.after_save(&saved);
                proof {
                    if saved is Ok {
                        let (path, text) = choose|path: String, text: String|
                            path@ == name + ".json"@ && text@ == file && #[trigger] call_ensures(
                                write,
                                (path, text),
                                Ok::<(), String>(()),
                            );
                        assert(call_ensures(write, (path, text), Ok::<(), String>(())));
                        assert(self.status() == Some("Saved session to "@ + name + ".json"@));
                    } else {
                        let (path, text) = choose|path: String, text: String|
                            path@ == name + ".json"@ && text@ == file && #[trigger] call_ensures(
                                write,
                                (path, text),
                                Err::<(), String>(saved->Err_0),
                            );
                        assert(call_ensures(write, (path, text), Err::<(), String>(saved->Err_0)));
                    }
                }
                true
            },
        }
    }

    /// Shows what a send came to: an entry goes, wrapped for a frame of
    /// width `frame_width`, to the end of the display buffer; a failure
    /// leaves the display buffer as it was and annotates the input box.
    pub fn after_send(
        &mut self,
        sent: &Result<ChatLogEntry, TransportError>,
        frame_width: u16,
    )
        ensures
            final(self).session() == old(self).session(),
            final(self).status() == old(self).status(),
            match *sent {
                Ok(entry) => {
                    &&& final(self).display() == old(self).display() + entry_lines(
                        entry@,
                        entry_width(frame_width),
                    )
                    &&& final(self).input_error() == old(self).input_error()
                },
                Err(error) => {
                    &&& final(self).display() == old(self).display()
                    &&& final(self).input_error() == Some(send_error_text(error@))
                    &&& send_error_text(error@).len() > 0
                },
            },
    {
        match sent {
            Ok(entry) => {
                let width: usize = if frame_width >= 4 {
                    (frame_width - 4) as usize
                } else {
                    0
                };
                add_chatlog_entry(&mut self.message_area, entry, width);
            },
            Err(error) => {
                let mut words = String::from_str("Error: ");
                words.append(error.describe().as_str());
                proof {
                    reveal_strlit("Error: ");
                }
                self.input_error = Some(words);
            },
        }
    }

    /// Leaves what a save came to for the status line: the file's name, or
    /// the failure. Nothing else changes.
    pub fn after_save(&mut self, saved: &Result<String, String>)
        ensures
            final(self).session() == old(self).session(),
            final(self).display() == old(self).display(),
            final(self).input_error() == old(self).input_error(),
            final(self).status() == Some(save_status_text(*saved)),
    {
        let words = match saved {
            Ok(filename) => {
                let mut words = String::from_str("Saved session to ");
                words.append(filename.as_str());
                words
            },
            Err(failure) => {
                let mut words = String::from_str("Error: ");
                words.append(failure.as_str());
                words
            },
        };
        self.error_message = Some(words);
    }
}

} // verus!
