//! Conversation summaries: the request that asks the model for one, and
//! the summary taken from its answer.
use vstd::prelude::*;

use crate::client::OllamaMessage;
use crate::json::{field_text, get_text, json_get, Json};
use crate::text::{append_chars, append_str, chars_of, string_of, trim, trim_chars};

verus! {

/// The system prompt of a summary request.
pub fn summary_system_prompt() -> (res: &'static str)
    ensures
        res@ == "You are a conversation summarizer. Your task is to produce a concise summary of the conversation. Focus on key facts, decisions, user intents, and any important context. Do not add information that was not discussed. Keep the summary brief and informative."@,
{
    "You are a conversation summarizer. Your task is to produce a concise summary of the conversation. Focus on key facts, decisions, user intents, and any important context. Do not add information that was not discussed. Keep the summary brief and informative."
}

/// The instruction when there is no summary yet.
pub open spec fn first_instruction() -> Seq<char> {
    "Summarize the following conversation concisely. Include key facts, decisions, and important context."@
}

/// The instruction when a summary exists: the previous summary set between
/// the two parts of the update text.
pub open spec fn update_instruction(previous: Seq<char>) -> Seq<char> {
    "Here is the previous summary of the conversation:\n\n"@ + previous
        + "\n\nNow update it with the new messages below. Produce an updated concise summary that incorporates both the previous context and the new information."@
}

/// How the messages are shown to the summarizer: `role: content` per line;
/// a message without content but with tool calls as
/// `role: [tool call: ...]` (`tool_calls[i]` is how its calls display);
/// system messages and messages with nothing to show are left out.
pub open spec fn message_listing(ms: Seq<Json>, tool_calls: Seq<Option<String>>) -> Seq<char>
    decreases ms.len(),
{
    if ms.len() == 0 {
        Seq::empty()
    } else {
        let i = ms.len() - 1;
        let before = message_listing(ms.drop_last(), tool_calls);
        let m = ms.last();
        let role = match field_text(m, "role"@) {
            Some(r) => r,
            None => "unknown"@,
        };
        let content = match field_text(m, "content"@) {
            Some(c) => c,
            None => Seq::empty(),
        };
        if role == "system"@ {
            before
        } else if content.len() == 0 {
            if i < tool_calls.len() && tool_calls[i] is Some {
                before + role + ": [tool call: "@ + tool_calls[i]->0@ + "]\n"@
            } else {
                before
            }
        } else {
            before + role + ": "@ + content + "\n"@
        }
    }
}

/// Adding a message with some text to the end of a conversation adds its
/// line `role: text` to the end of the listing, whatever its role, unless it
/// is a system message, which adds nothing.
pub proof fn lemma_listing_appends(
    ms: Seq<Json>,
    m: Json,
    tool_calls: Seq<Option<String>>,
    role: Seq<char>,
    content: Seq<char>,
)
    requires
        field_text(m, "role"@) == Some(role),
        field_text(m, "content"@) == Some(content),
        content.len() > 0,
    ensures
        role != "system"@ ==> message_listing(ms.push(m), tool_calls) == message_listing(ms, tool_calls)
            + role + ": "@ + content + "\n"@,
        role == "system"@ ==> message_listing(ms.push(m), tool_calls) == message_listing(
            ms,
            tool_calls,
        ),
{
    assert(ms.push(m).drop_last() =~= ms);
    assert(ms.push(m).last() == m);
}

/// Adding a non-system message with no text but with tool calls adds the
/// line `role: [tool call: ...]` showing them; one with neither adds nothing.
pub proof fn lemma_listing_appends_calls(
    ms: Seq<Json>,
    m: Json,
    tool_calls: Seq<Option<String>>,
    role: Seq<char>,
)
    requires
        field_text(m, "role"@) == Some(role),
        role != "system"@,
        field_text(m, "content"@) is None || field_text(m, "content"@) == Some(Seq::<char>::empty()),
    ensures
        ms.len() < tool_calls.len() && tool_calls[ms.len() as int] is Some ==> message_listing(
            ms.push(m),
            tool_calls,
        ) == message_listing(ms, tool_calls) + role + ": [tool call: "@
            + tool_calls[ms.len() as int]->0@ + "]\n"@,
        !(ms.len() < tool_calls.len() && tool_calls[ms.len() as int] is Some) ==> message_listing(
            ms.push(m),
            tool_calls,
        ) == message_listing(ms, tool_calls),
{
    assert(ms.push(m).drop_last() =~= ms);
    assert(ms.push(m).last() == m);
}

/// How the messages are shown to the summarizer. `tool_calls[i]` is how
/// the tool calls of message `i` display, when it has a `tool_calls` member.
pub fn format_messages(messages: &Vec<Json>, tool_calls: &Vec<Option<String>>) -> (res: String)
    ensures
        res@ == message_listing(messages@, tool_calls@),
{
    let mut out: Vec<char> = Vec::new();
    let mut i: usize = 0;
    assert(messages@.take(0) =~= Seq::<Json>::empty());
    while i < messages.len()
        invariant
            0 <= i <= messages.len(),
            out@ == message_listing(messages@.take(i as int), tool_calls@),
        decreases messages.len() - i,
    {
        proof {
            assert(messages@.take(i + 1).drop_last() =~= messages@.take(i as int));
            assert(messages@.take(i + 1).last() == messages@[i as int]);
        }
        let m = &messages[i];
        let role = match get_text(m, "role") {
            Some(r) => chars_of(r),
            None => chars_of("unknown"),
        };
        let content = match get_text(m, "content") {
            Some(c) => chars_of(c),
            None => Vec::new(),
        };
        if crate::text::chars_eq(&role, &chars_of("system")) {
        } else if content.len() == 0 {
            if i < tool_calls.len() {
                match &tool_calls[i] {
                    Some(t) => {
                        append_chars(&mut out, &role);
                        append_str(&mut out, ": [tool call: ");
                        append_str(&mut out, t.as_str());
                        append_str(&mut out, "]\n");
                    },
                    None => {},
                }
            }
        } else {
            append_chars(&mut out, &role);
            append_str(&mut out, ": ");
            append_chars(&mut out, &content);
            append_str(&mut out, "\n");
        }
        i = i + 1;
    }
    assert(messages@.take(messages.len() as int) =~= messages@);
    string_of(&out)
}

/// The user message of a summary request: the instruction (updating the
/// previous summary when there is one), a separator, and the messages.
pub open spec fn summary_request_text(listing: Seq<char>, previous: Option<Seq<char>>) -> Seq<char> {
    let head = match previous {
        Some(p) => update_instruction(p),
        None => first_instruction(),
    };
    head + "\n\n---\n\nConversation messages:\n"@ + listing
}

/// The user message of a summary request.
pub fn summary_request(
    messages: &Vec<Json>,
    tool_calls: &Vec<Option<String>>,
    existing_summary: &Option<String>,
) -> (res: String)
    ensures
        res@ == summary_request_text(
            message_listing(messages@, tool_calls@),
            match *existing_summary {
                Some(s) => Some(s@),
                None => None,
            },
        ),
{
    let mut out: Vec<char> = match existing_summary {
        Some(s) => {
            let mut h = chars_of("Here is the previous summary of the conversation:\n\n");
            append_str(&mut h, s.as_str());
            append_str(
                &mut h,
                "\n\nNow update it with the new messages below. Produce an updated concise summary that incorporates both the previous context and the new information.",
            );
            h
        },
        None => chars_of(
            "Summarize the following conversation concisely. Include key facts, decisions, and important context.",
        ),
    };
    append_str(&mut out, "\n\n---\n\nConversation messages:\n");
    let listing = format_messages(messages, tool_calls);
    append_str(&mut out, listing.as_str());
    string_of(&out)
}

/// The summary taken from the model's answer: its text, trimmed.
pub fn finish_summary(answer: &str) -> (res: String)
    ensures
        res@ == trim(answer@),
{
    string_of(&trim_chars(&chars_of(answer)))
}

/// The text of the model's answer to a summary request, gathered piece by
/// piece.
pub struct SummaryAnswer {
    text: Vec<char>,
}

impl SummaryAnswer {
    /// The text gathered so far.
    pub closed spec fn text(&self) -> Seq<char> {
        self.text@
    }

    pub fn new() -> (res: Self)
        ensures
            res.text() == Seq::<char>::empty(),
    {
        SummaryAnswer { text: Vec::new() }
    }

    /// Adds the text of one streamed piece: its message's content, if it
    /// has a message.
    pub fn add(&mut self, message: Option<OllamaMessage>)
        ensures
            final(self).text() == old(self).text() + match message {
                Some(m) => m.content@,
                None => Seq::<char>::empty(),
            },
    {
        match message {
            Some(m) => append_str(&mut self.text, m.content.as_str()),
            None => {
                assert(self.text@ + Seq::<char>::empty() =~= self.text@);
            },
        }
    }

    /// The summary: the gathered text, trimmed.
    pub fn finish(self) -> (res: String)
        ensures
            res@ == trim(self.text()),
    {
        string_of(&trim_chars(&self.text))
    }
}

/// The summary a session keeps after a run: the new one when summarizing
/// succeeded, else the one it had.
pub fn summary_after(
    existing: Option<String>,
    attempt: Option<Result<String, crate::error::AgentForgeError>>,
) -> (res: Option<String>)
    ensures
        res == match attempt {
            Some(Ok(s)) => Some(s),
            _ => existing,
        },
{
    match attempt {
        Some(Ok(s)) => Some(s),
        _ => existing,
    }
}

} // verus!
