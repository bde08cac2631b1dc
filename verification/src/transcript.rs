use vstd::prelude::*;
use vstd::string::StringExecFns;
use crate::api::{entry_views, ChatLogEntry, EntryView};
use crate::json::{
    fault_text, fault_words, json_document, json_elements, json_string, member_text,
    member_unsigned, parse_document, quote, text_member, text_view, unsigned_member,
};
use crate::text::{decimal, push_decimal};

verus! {

/// The layout of one entry in a transcript file: an object of four
/// members, indented as an element of the array. The two texts are given
/// as the JSON strings that they are written as.
pub open spec fn entry_layout(
    message: Seq<char>,
    response: Seq<char>,
    num_tokens_message: nat,
    num_tokens_response: nat,
) -> Seq<char> {
    "  {\n    \"message\": "@ + message + ",\n    \"response\": "@ + response
        + ",\n    \"num_tokens_message\": "@ + decimal(num_tokens_message)
        + ",\n    \"num_tokens_response\": "@ + decimal(num_tokens_response) + "\n  }"@
}

/// One entry as it stands in a transcript file.
pub open spec fn entry_json(entry: EntryView) -> Seq<char> {
    entry_layout(
        json_string(entry.message),
        json_string(entry.response),
        entry.num_tokens_message,
        entry.num_tokens_response,
    )
}

/// The entries one after the other, a comma and a line break between two.
pub open spec fn entries_json(entries: Seq<EntryView>) -> Seq<char>
    decreases entries.len(),
{
    if entries.len() == 0 {
        Seq::<char>::empty()
    } else if entries.len() == 1 {
        entry_json(entries[0])
    } else {
        entries_json(entries.drop_last()) + ",\n"@ + entry_json(entries.last())
    }
}

/// The text of a transcript file: a JSON array with one object for each
/// entry, in the order of the transcript, laid out with two spaces to a
/// level. An empty transcript is `[]`.
pub open spec fn transcript_json(entries: Seq<EntryView>) -> Seq<char> {
    if entries.len() == 0 {
        "[]"@
    } else {
        "[\n"@ + entries_json(entries) + "\n]"@
    }
}

/// Appends [`entry_layout`] to `out`.
pub fn push_entry_layout(
    out: &mut String,
    message: &str,
    response: &str,
    num_tokens_message: u32,
    num_tokens_response: u32,
)
    ensures
        final(out)@ == old(out)@ + entry_layout(
            message@,
            response@,
            num_tokens_message as nat,
            num_tokens_response as nat,
        ),
{
    out.append("  {\n    \"message\": ");
    out.append(message);
    out.append(",\n    \"response\": ");
    out.append(response);
    out.append(",\n    \"num_tokens_message\": ");
    push_decimal(out, num_tokens_message as u64);
    out.append(",\n    \"num_tokens_response\": ");
    push_decimal(out, num_tokens_response as u64);
    out.append("\n  }");
    assert(out@ =~= old(out)@ + entry_layout(
        message@,
        response@,
        num_tokens_message as nat,
        num_tokens_response as nat,
    ));
}

fn push_entry(out: &mut String, entry: &ChatLogEntry)
    ensures
        final(out)@ == old(out)@ + entry_json(entry@),
{
    let message = quote(entry.message.as_str());
    let response = quote(entry.response.as_str());
    push_entry_layout(
        out,
        message.as_str(),
        response.as_str(),
        entry.num_tokens_message,
        entry.num_tokens_response,
    );
}

/// Writes a transcript as the text of a transcript file.
pub fn encode_transcript(entries: &Vec<ChatLogEntry>) -> (text: String)
    ensures
        text@ == transcript_json(entry_views(entries@)),
{
    let ghost views = entry_views(entries@);
    if entries.len() == 0 {
        return String::from_str("[]");
    }
    let mut text = String::from_str("[\n");
    let mut i: usize = 0;
    while i < entries.len()
        invariant
            i <= entries.len(),
            views == entry_views(entries@),
            text@ == "[\n"@ + entries_json(views.take(i as int)),
        decreases entries.len() - i,
    {
        if i > 0 {
            text.append(",\n");
        }
        push_entry(&mut text, &entries[i]);
        proof {
            let before = views.take(i as int);
            let now = views.take(i + 1);
            assert(now.drop_last() == before);
            assert(now.last() == entries[i as int]@);
            assert(text@ =~= "[\n"@ + entries_json(now));
        }
        i = i + 1;
    }
    text.append("\n]");
    assert(views.take(i as int) == views);
    text
}

/// Why a text is no transcript file.
#[derive(Debug)]
pub enum TranscriptError {
    /// The text is not JSON. Holds the parser's description of the fault.
    Syntax(String),
    /// The text is JSON, but not an array.
    NotAnArray,
    /// The element at this place of the array is not an object with the
    /// four members of an entry, each of its kind.
    BadEntry(usize),
}

/// What a [`TranscriptError`] holds, as mathematical values.
pub enum TranscriptErrorView {
    Syntax(Seq<char>),
    NotAnArray,
    BadEntry(nat),
}

impl View for TranscriptError {
    type V = TranscriptErrorView;

    open spec fn view(&self) -> TranscriptErrorView {
        match self {
            TranscriptError::Syntax(words) => TranscriptErrorView::Syntax(words@),
            TranscriptError::NotAnArray => TranscriptErrorView::NotAnArray,
            TranscriptError::BadEntry(at) => TranscriptErrorView::BadEntry(*at as nat),
        }
    }
}

/// What was found in one element of the array, member by member: `None`
/// where the member is missing or is not of its kind (a string for the two
/// texts, an integer that is not negative for the two counts).
pub struct RawEntry {
    pub message: Option<String>,
    pub response: Option<String>,
    pub num_tokens_message: Option<u64>,
    pub num_tokens_response: Option<u64>,
}

/// What a [`RawEntry`] holds, as mathematical values.
pub struct RawEntryView {
    pub message: Option<Seq<char>>,
    pub response: Option<Seq<char>>,
    pub num_tokens_message: Option<u64>,
    pub num_tokens_response: Option<u64>,
}

impl View for RawEntry {
    type V = RawEntryView;

    open spec fn view(&self) -> RawEntryView {
        RawEntryView {
            message: text_view(self.message),
            response: text_view(self.response),
            num_tokens_message: self.num_tokens_message,
            num_tokens_response: self.num_tokens_response,
        }
    }
}

/// The views of a run of raw entries, in the same order.
pub open spec fn raw_views(raws: Seq<RawEntry>) -> Seq<RawEntryView> {
    raws.map_values(|raw: RawEntry| raw@)
}

/// The entry that a raw entry stands for: it has one where all four
/// members were found and both counts fit 32 bits.
pub open spec fn entry_of_raw(raw: RawEntryView) -> Option<EntryView> {
    if raw.message is Some && raw.response is Some && raw.num_tokens_message is Some
        && raw.num_tokens_response is Some && raw.num_tokens_message->0 <= u32::MAX
        && raw.num_tokens_response->0 <= u32::MAX {
        Some(
            EntryView {
                message: raw.message->0,
                response: raw.response->0,
                num_tokens_message: raw.num_tokens_message->0 as nat,
                num_tokens_response: raw.num_tokens_response->0 as nat,
            },
        )
    } else {
        None
    }
}

/// Whether `at` is the first place in `raws` that stands for no entry.
pub open spec fn is_first_bad(raws: Seq<RawEntryView>, at: int) -> bool {
    &&& 0 <= at < raws.len()
    &&& entry_of_raw(raws[at]) is None
    &&& forall|i: int| 0 <= i < at ==> entry_of_raw(#[trigger] raws[i]) is Some
}

/// The transcript that raw entries make, in their order. One that stands
/// for no entry fails the whole, and the error names the first such place.
pub open spec fn entries_of_raws(raws: Seq<RawEntryView>) -> Result<
    Seq<EntryView>,
    TranscriptErrorView,
> {
    if exists|at: int| is_first_bad(raws, at) {
        Err(TranscriptErrorView::BadEntry((choose|at: int| is_first_bad(raws, at)) as nat))
    } else {
        Ok(raws.map_values(|raw: RawEntryView| entry_of_raw(raw)->0))
    }
}

/// The view of what reading a transcript came to.
pub open spec fn decoding_view(decoded: Result<Vec<ChatLogEntry>, TranscriptError>) -> Result<
    Seq<EntryView>,
    TranscriptErrorView,
> {
    match decoded {
        Ok(entries) => Ok(entry_views(entries@)),
        Err(error) => Err(error@),
    }
}

/// Makes the entry of a raw entry, if it stands for one.
pub fn entry_from_raw(raw: &RawEntry) -> (entry: Option<ChatLogEntry>)
    ensures
        match entry {
            Some(made) => entry_of_raw(raw@) == Some(made@),
            None => entry_of_raw(raw@) is None,
        },
{
    match (&raw.message, &raw.response, raw.num_tokens_message, raw.num_tokens_response) {
        (Some(message), Some(response), Some(prompt_tokens), Some(reply_tokens)) => {
            if prompt_tokens <= u32::MAX as u64 && reply_tokens <= u32::MAX as u64 {
                Some(
                    ChatLogEntry {
                        message: message.clone(),
                        response: response.clone(),
                        num_tokens_message: prompt_tokens as u32,
                        num_tokens_response: reply_tokens as u32,
                    },
                )
            } else {
                None
            }
        },
        _ => None,
    }
}

/// There is one first bad place at most.
pub proof fn lemma_first_bad_is_unique(raws: Seq<RawEntryView>, at: int, other: int)
    requires
        is_first_bad(raws, at),
        is_first_bad(raws, other),
    ensures
        at == other,
{
    if at < other {
        assert(entry_of_raw(raws[at]) is Some);
    } else if other < at {
        assert(entry_of_raw(raws[other]) is Some);
    }
}

/// Computes [`entries_of_raws`].
pub fn entries_from_raw(raws: &Vec<RawEntry>) -> (made: Result<Vec<ChatLogEntry>, TranscriptError>)
    ensures
        decoding_view(made) == entries_of_raws(raw_views(raws@)),
{
    let ghost views = raw_views(raws@);
    let mut entries: Vec<ChatLogEntry> = Vec::new();
    let mut i: usize = 0;
    while i < raws.len()
        invariant
            i <= raws.len(),
            views == raw_views(raws@),
            entries@.len() == i,
            forall|k: int| 0 <= k < i ==> entry_of_raw(#[trigger] views[k]) == Some(entries@[k]@),
        decreases raws.len() - i,
    {
        match entry_from_raw(&raws[i]) {
            Some(entry) => {
                entries.push(entry);
            },
            None => {
                proof {
                    assert(views[i as int] == raws@[i as int]@);
                    assert(is_first_bad(views, i as int));
                    let chosen = choose|at: int| is_first_bad(views, at);
                    lemma_first_bad_is_unique(views, i as int, chosen);
                }
                return Err(TranscriptError::BadEntry(i));
            },
        }
        i = i + 1;
    }
    proof {
        assert(!exists|at: int| is_first_bad(views, at)) by {
            assert forall|at: int| !is_first_bad(views, at) by {
                if 0 <= at < views.len() {
                    assert(entry_of_raw(views[at]) is Some);
                }
            }
        }
        assert(entry_views(entries@) =~= views.map_values(
            |raw: RawEntryView| entry_of_raw(raw)->0,
        ));
    }
    Ok(entries)
}

/// What an element of the array gives as a raw entry: the members
/// `message` and `response` as strings, the members `num_tokens_message`
/// and `num_tokens_response` as integers that are not negative.
pub open spec fn raw_of(element: serde_json::Value) -> RawEntryView {
    RawEntryView {
        message: member_text(element, "message"@),
        response: member_text(element, "response"@),
        num_tokens_message: member_unsigned(element, "num_tokens_message"@),
        num_tokens_response: member_unsigned(element, "num_tokens_response"@),
    }
}

/// What the text of a transcript file holds. A text that is no JSON gives
/// `Syntax` with the parser's words, a document that is no array gives
/// `NotAnArray`, and the elements of the array, read member by member,
/// make the transcript ([`entries_of_raws`]). Members of other names are
/// passed over, and so is the layout.
pub open spec fn decoded_transcript(text: Seq<char>) -> Result<
    Seq<EntryView>,
    TranscriptErrorView,
> {
    match json_document(text) {
        Err(fault) => Err(TranscriptErrorView::Syntax(fault_words(fault))),
        Ok(document) => match json_elements(document) {
            None => Err(TranscriptErrorView::NotAnArray),
            Some(elements) => entries_of_raws(
                elements.map_values(|element: serde_json::Value| raw_of(element)),
            ),
        },
    }
}

/// The raw entry in which all of an entry was found.
pub open spec fn raw_of_entry(entry: EntryView) -> RawEntryView {
    RawEntryView {
        message: Some(entry.message),
        response: Some(entry.response),
        num_tokens_message: Some(entry.num_tokens_message as u64),
        num_tokens_response: Some(entry.num_tokens_response as u64),
    }
}

/// Where the parser reads of a text an array that holds, element for
/// element, the four members of the entries of a transcript, the text
/// holds that transcript. What the parser reads of a given text is its
/// own matter and is assumed here, not shown.
pub proof fn lemma_decoded_from_members(text: Seq<char>, entries: Seq<EntryView>)
    requires
        forall|i: int|
            0 <= i < entries.len() ==> (#[trigger] entries[i]).num_tokens_message <= u32::MAX
                && entries[i].num_tokens_response <= u32::MAX,
        json_document(text) is Ok,
        json_elements(json_document(text)->Ok_0) is Some,
        json_elements(json_document(text)->Ok_0)->0.len() == entries.len(),
        forall|i: int|
            0 <= i < entries.len() ==> raw_of(
                #[trigger] json_elements(json_document(text)->Ok_0)->0[i],
            ) == raw_of_entry(entries[i]),
    ensures
        decoded_transcript(text) == Ok::<Seq<EntryView>, TranscriptErrorView>(entries),
{
    let elements = json_elements(json_document(text)->Ok_0)->0;
    let raws = elements.map_values(|element: serde_json::Value| raw_of(element));
    assert forall|i: int| 0 <= i < raws.len() implies entry_of_raw(#[trigger] raws[i]) == Some(
        entries[i],
    ) by {
        assert(raws[i] == raw_of(elements[i]));
        assert(entries[i].num_tokens_message <= u32::MAX);
    }
    assert(!exists|at: int| is_first_bad(raws, at));
    assert(raws.map_values(|raw: RawEntryView| entry_of_raw(raw)->0) =~= entries);
}

/// Computes [`decoded_transcript`].
pub fn decode_transcript(text: &str) -> (decoded: Result<Vec<ChatLogEntry>, TranscriptError>)
    ensures
        decoding_view(decoded) == decoded_transcript(text@),
{
    let document = match parse_document(text) {
        Ok(document) => document,
        Err(fault) => {
            return Err(TranscriptError::Syntax(fault_text(&fault)));
        },
    };
    let elements = match document.as_array() {
        Some(elements) => elements,
        None => {
            return Err(TranscriptError::NotAnArray);
        },
    };
    let ghost target = elements@.map_values(|element: serde_json::Value| raw_of(element));
    let mut raws: Vec<RawEntry> = Vec::new();
    let mut i: usize = 0;
    while i < elements.len()
        invariant
            i <= elements.len(),
            target == elements@.map_values(|element: serde_json::Value| raw_of(element)),
            raw_views(raws@) == target.take(i as int),
        decreases elements.len() - i,
    {
        let element = &elements[i];
        let raw = RawEntry {
            message: text_member(element, "message"),
            response: text_member(element, "response"),
            num_tokens_message: unsigned_member(element, "num_tokens_message"),
            num_tokens_response: unsigned_member(element, "num_tokens_response"),
        };
        assert(raw@ == target[i as int]);
        let ghost before = raw_views(raws@);
        raws.push(raw);
        proof {
            assert(raw_views(raws@) =~= before.push(raw@));
            assert(target.take(i + 1) =~= target.take(i as int).push(target[i as int]));
        }
        i = i + 1;
    }
    assert(target.take(i as int) == target);
    entries_from_raw(&raws)
}

} // verus!
