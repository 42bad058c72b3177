//! The events a session reports while it runs, and the identifiers they
//! carry.
use vstd::prelude::*;

use crate::json::Json;
use crate::text::{append_chars, chars_of, digit_char, slice_chars, string_of};
use vstd::arithmetic::power2::pow2;

verus! {

/// `Uuid::new_v4`, taken as its 128-bit value (`Uuid::as_u128`): a random
/// identifier; nothing is promised of its value.
#[verifier::external_body]
fn new_uuid() -> (res: u128) {
    uuid::Uuid::new_v4().as_u128()
}

/// A lowercase hexadecimal digit.
pub open spec fn is_lower_hex(c: char) -> bool {
    ('0' <= c && c <= '9') || ('a' <= c && c <= 'f')
}

/// The shape of an identifier's text: 36 characters, hyphens at positions
/// 8, 13, 18 and 23, lowercase hexadecimal digits everywhere else.
pub open spec fn uuid_form(t: Seq<char>) -> bool {
    &&& t.len() == 36
    &&& forall|i: int|
        0 <= i < 36 ==> if i == 8 || i == 13 || i == 18 || i == 23 {
            #[trigger] t[i] == '-'
        } else {
            is_lower_hex(t[i])
        }
}

/// The lowercase hexadecimal digit for `d` (below 16).
pub open spec fn hex_char(d: nat) -> char {
    if d < 10 {
        digit_char(d)
    } else if d == 10 {
        'a'
    } else if d == 11 {
        'b'
    } else if d == 12 {
        'c'
    } else if d == 13 {
        'd'
    } else if d == 14 {
        'e'
    } else {
        'f'
    }
}

/// Hexadecimal digit `k` of `bits`, counted from the most significant
/// (`k` from 0 to 31).
pub open spec fn nibble(bits: u128, k: int) -> nat {
    ((bits as nat) / pow2((4 * (31 - k)) as nat)) % 16
}

/// Which of the 32 digits stands at position `i` of the hyphenated text.
pub open spec fn digit_at(i: int) -> int {
    if i < 8 {
        i
    } else if i < 13 {
        i - 1
    } else if i < 18 {
        i - 2
    } else if i < 23 {
        i - 3
    } else {
        i - 4
    }
}

/// The hyphenated lowercase text of a 128-bit identifier: its 32
/// hexadecimal digits, most significant first, in groups of 8, 4, 4, 4 and
/// 12 joined by hyphens.
pub open spec fn hyphenated_hex(bits: u128) -> Seq<char> {
    Seq::new(
        36,
        |i: int|
            if i == 8 || i == 13 || i == 18 || i == 23 {
                '-'
            } else {
                hex_char(nibble(bits, digit_at(i)))
            },
    )
}

/// The hyphenated text has the shape of an identifier's text.
pub proof fn lemma_hyphenated_form(bits: u128)
    ensures
        uuid_form(hyphenated_hex(bits)),
{
    let t = hyphenated_hex(bits);
    assert forall|i: int| 0 <= i < 36 implies if i == 8 || i == 13 || i == 18 || i == 23 {
        #[trigger] t[i] == '-'
    } else {
        is_lower_hex(t[i])
    } by {
        if !(i == 8 || i == 13 || i == 18 || i == 23) {
            let d = nibble(bits, digit_at(i));
            assert(d < 16);
        }
    }
}

/// `Display` of `Uuid::from_u128(bits)`: the hyphenated lowercase form, the
/// 16 bytes of `bits` in big-endian order written as hexadecimal digits.
#[verifier::external_body]
fn uuid_text(bits: u128) -> (res: String)
    ensures
        res@ == hyphenated_hex(bits),
{
    uuid::Uuid::from_u128(bits).to_string()
}

/// Names what `Uuid::parse_str` gives for `s`, as a 128-bit value
/// (`Uuid::as_u128`), when it accepts `s`.
pub uninterp spec fn uuid_parsed(s: Seq<char>) -> Option<u128>;

/// `Uuid::parse_str`, taken as its 128-bit value. A hyphenated lowercase
/// text is read back as the value it was written from.
#[verifier::external_body]
fn parse_uuid(s: &str) -> (res: Option<u128>)
    ensures
        res == uuid_parsed(s@),
        forall|b: u128| #[trigger] hyphenated_hex(b) == s@ ==> res == Some(b),
{
    match uuid::Uuid::parse_str(s) {
        Ok(u) => Some(u.as_u128()),
        Err(_) => None,
    }
}

/// A conversation thread, by its 128-bit UUID value.
#[derive(Debug, Clone, Copy, PartialEq, Eq, Hash)]
pub struct ThreadId(pub u128);

/// One run of a session, by its 128-bit UUID value.
#[derive(Debug, Clone, Copy, PartialEq, Eq, Hash)]
pub struct RunId(pub u128);

/// One message, by its 128-bit UUID value.
#[derive(Debug, Clone, Copy, PartialEq, Eq, Hash)]
pub struct MessageId(pub u128);

impl ThreadId {
    pub fn random() -> Self {
        ThreadId(new_uuid())
    }

    /// The thread named by a UUID text, if `Uuid::parse_str` accepts it.
    /// The text of a thread reads back as that thread, so a session saved
    /// under a thread's text is found again from it.
    pub fn from_text(s: &str) -> (res: Option<Self>)
        ensures
            res == match uuid_parsed(s@) {
                Some(b) => Some(ThreadId(b)),
                None => None::<ThreadId>,
            },
            forall|b: u128| #[trigger] hyphenated_hex(b) == s@ ==> res == Some(ThreadId(b)),
    {
        match parse_uuid(s) {
            Some(b) => Some(ThreadId(b)),
            None => None,
        }
    }

    /// The identifier's text: its hyphenated lowercase form.
    pub fn text(&self) -> (res: String)
        ensures
            res@ == hyphenated_hex(self.0),
            uuid_form(res@),
    {
        proof {
            lemma_hyphenated_form(self.0);
        }
        uuid_text(self.0)
    }
}

impl RunId {
    pub fn random() -> Self {
        RunId(new_uuid())
    }

    pub fn text(&self) -> (res: String)
        ensures
            res@ == hyphenated_hex(self.0),
            uuid_form(res@),
    {
        proof {
            lemma_hyphenated_form(self.0);
        }
        uuid_text(self.0)
    }
}

impl MessageId {
    pub fn random() -> Self {
        MessageId(new_uuid())
    }

    pub fn text(&self) -> (res: String)
        ensures
            res@ == hyphenated_hex(self.0),
            uuid_form(res@),
    {
        proof {
            lemma_hyphenated_form(self.0);
        }
        uuid_text(self.0)
    }
}

/// A tool call's identifier: `call_` followed by eight hexadecimal digits.
#[derive(Debug, Clone, PartialEq, Eq, Hash)]
pub struct ToolCallId(pub String);

impl ToolCallId {
    /// A fresh identifier: `call_` and the first eight characters of a
    /// random UUID's text.
    pub fn random() -> (res: Self)
        ensures
            res.0@.len() == 13,
            res.0@.take(5) == "call_"@,
            forall|i: int| 5 <= i < 13 ==> is_lower_hex(#[trigger] res.0@[i]),
    {
        let bits = new_uuid();
        let u = uuid_text(bits);
        proof {
            lemma_hyphenated_form(bits);
        }
        let cs = chars_of(u.as_str());
        let head = slice_chars(&cs, 0, 8);
        let mut id = chars_of("call_");
        proof {
            reveal_strlit("call_");
        }
        let ghost prefix = id@;
        append_chars(&mut id, &head);
        assert(id@.take(5) =~= prefix);
        assert forall|i: int| 5 <= i < 13 implies is_lower_hex(#[trigger] id@[i]) by {
            assert(id@[i] == head@[i - 5]);
            assert(head@[i - 5] == u@[i - 5]);
        }
        ToolCallId(string_of(&id))
    }

    /// The identifier's text.
    pub fn as_str(&self) -> (res: &str)
        ensures
            res@ == self.0@,
    {
        self.0.as_str()
    }
}

/// Who a message is from.
#[derive(Debug, PartialEq, Eq, Structural, Clone, Copy)]
pub enum Role {
    Assistant,
    Tool,
}

pub struct RunStartedEvent {
    pub thread_id: ThreadId,
    pub run_id: RunId,
}

pub struct RunFinishedEvent {
    pub thread_id: ThreadId,
    pub run_id: RunId,
    pub result: Option<Json>,
}

pub struct RunErrorEvent {
    pub message: String,
    pub code: Option<String>,
}

pub struct TextMessageStartEvent {
    pub message_id: MessageId,
    pub role: Role,
}

pub struct TextMessageContentEvent {
    pub message_id: MessageId,
    pub delta: String,
}

pub struct TextMessageEndEvent {
    pub message_id: MessageId,
}

pub struct ThinkingTextMessageStartEvent;

pub struct ThinkingTextMessageContentEvent {
    pub delta: String,
}

pub struct ThinkingTextMessageEndEvent;

pub struct ToolCallStartEvent {
    pub tool_call_id: ToolCallId,
    pub tool_call_name: String,
    pub parent_message_id: Option<MessageId>,
}

pub struct ToolCallArgsEvent {
    pub tool_call_id: ToolCallId,
    pub delta: String,
}

pub struct ToolCallEndEvent {
    pub tool_call_id: ToolCallId,
}

pub struct ToolCallResultEvent {
    pub message_id: MessageId,
    pub tool_call_id: ToolCallId,
    pub content: String,
    pub role: Role,
}

pub struct StateSnapshotEvent {
    pub snapshot: Json,
}

pub struct StateDeltaEvent {
    pub delta: Vec<Json>,
}

pub enum Event {
    RunStarted(RunStartedEvent),
    RunFinished(RunFinishedEvent),
    RunError(RunErrorEvent),
    TextMessageStart(TextMessageStartEvent),
    TextMessageContent(TextMessageContentEvent),
    TextMessageEnd(TextMessageEndEvent),
    ThinkingTextMessageStart(ThinkingTextMessageStartEvent),
    ThinkingTextMessageContent(ThinkingTextMessageContentEvent),
    ThinkingTextMessageEnd(ThinkingTextMessageEndEvent),
    ToolCallStart(ToolCallStartEvent),
    ToolCallArgs(ToolCallArgsEvent),
    ToolCallEnd(ToolCallEndEvent),
    ToolCallResult(ToolCallResultEvent),
    StateSnapshot(StateSnapshotEvent),
    StateDelta(StateDeltaEvent),
}

/// A copy of a tool call's identifier.
fn copy_id(id: &ToolCallId) -> (res: ToolCallId)
    ensures
        res == *id,
{
    ToolCallId(id.0.clone())
}

/// The events that announce a tool call before it is carried out, in
/// order: its start, its arguments (as JSON text), its end.
pub fn call_announcement(tool_call_id: ToolCallId, name: String, args_text: String) -> (res: Vec<Event>)
    ensures
        res@.len() == 3,
        res@[0] matches Event::ToolCallStart(e) && e.tool_call_id == tool_call_id && e.tool_call_name
            == name && e.parent_message_id is None,
        res@[1] matches Event::ToolCallArgs(e) && e.tool_call_id == tool_call_id && e.delta
            == args_text,
        res@[2] matches Event::ToolCallEnd(e) && e.tool_call_id == tool_call_id,
{
    let start = Event::ToolCallStart(
        ToolCallStartEvent {
            tool_call_id: copy_id(&tool_call_id),
            tool_call_name: name,
            parent_message_id: None,
        },
    );
    let args = Event::ToolCallArgs(ToolCallArgsEvent { tool_call_id: copy_id(&tool_call_id), delta: args_text });
    let end = Event::ToolCallEnd(ToolCallEndEvent { tool_call_id });
    vec![start, args, end]
}

/// The events that end a run whose request to the model failed: the error,
/// then the end of the run.
pub fn failure_events(message: String, thread_id: ThreadId, run_id: RunId) -> (res: Vec<Event>)
    ensures
        res@.len() == 2,
        res@[0] matches Event::RunError(e) && e.message == message && e.code is None,
        res@[1] matches Event::RunFinished(e) && e.thread_id == thread_id && e.run_id == run_id
            && e.result is None,
{
    vec![
        Event::RunError(RunErrorEvent { message, code: None }),
        Event::RunFinished(RunFinishedEvent { thread_id, run_id, result: None }),
    ]
}

/// The events after the model's stream failed in the middle of an answer:
/// the end of the thinking output when it was open, then the error. The run
/// ends there, with no `RunFinished`.
pub fn stream_failure_events(thinking_open: bool, message: String) -> (res: Vec<Event>)
    ensures
        res@.len() == if thinking_open {
            2int
        } else {
            1
        },
        thinking_open ==> res@[0] is ThinkingTextMessageEnd,
        res@.last() matches Event::RunError(e) && e.message == message && e.code is None,
{
    let mut res: Vec<Event> = Vec::new();
    if thinking_open {
        res.push(Event::ThinkingTextMessageEnd(ThinkingTextMessageEndEvent));
    }
    res.push(Event::RunError(RunErrorEvent { message, code: None }));
    res
}

/// The events that close a run that ran its course: the final state
/// snapshot when one is owed, then the end of the run.
pub fn closing_events(final_snapshot: Option<Json>, thread_id: ThreadId, run_id: RunId) -> (res: Vec<
    Event,
>)
    ensures
        res@.len() == if final_snapshot is Some {
            2int
        } else {
            1
        },
        final_snapshot matches Some(s) ==> res@[0] matches Event::StateSnapshot(e) && e.snapshot
            == s,
        res@.last() matches Event::RunFinished(e) && e.thread_id == thread_id && e.run_id == run_id
            && e.result is None,
{
    let mut res: Vec<Event> = Vec::new();
    match final_snapshot {
        Some(snapshot) => res.push(Event::StateSnapshot(StateSnapshotEvent { snapshot })),
        None => {},
    }
    res.push(Event::RunFinished(RunFinishedEvent { thread_id, run_id, result: None }));
    res
}

} // verus!
