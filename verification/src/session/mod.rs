//! Sessions: the conversation history, what is sent to the model in each
//! request, the prompt that summarization augments, and the controller that
//! decides each step of a run.
pub mod store;
pub mod stream;

use vstd::prelude::*;

use crate::error::{error_text, AgentForgeError};
use crate::client::{owned, system_message, text_object, text_value, tool_result_message, ChatRequest};
use crate::json::{as_text, field_text, get_text, json_get, members, Json};
use crate::ordmap::{lemma_lookup_insert, lemma_sorted_insert_len};
use crate::text::{
    append_chars, append_decimal, append_str, chars_eq, chars_of, decimal, has_prefix, join,
    join_lines, lowercase, lowercase_chars, starts_with, string_of,
};

verus! {

/// What a session keeps as its state between turns.
pub trait AgentState: core::fmt::Debug + Send + Sync {}

impl AgentState for Json {}

impl AgentState for () {}

// ---------------------------------------------------------------------------
// Specifications
// ---------------------------------------------------------------------------

/// A text, or nothing when absent.
pub open spec fn text_or_empty(t: Option<Seq<char>>) -> Seq<char> {
    match t {
        Some(s) => s,
        None => Seq::empty(),
    }
}

/// Whether a message has the role `system`.
pub open spec fn is_system(m: Json) -> bool {
    field_text(m, "role"@) == Some("system"@)
}

/// The indices of the messages that are not system messages, in order.
pub open spec fn non_system_indices(ms: Seq<Json>) -> Seq<int>
    decreases ms.len(),
{
    if ms.len() == 0 {
        Seq::empty()
    } else if is_system(ms.last()) {
        non_system_indices(ms.drop_last())
    } else {
        non_system_indices(ms.drop_last()).push(ms.len() - 1)
    }
}

/// The last `n` elements of `s` (all of them when there are fewer).
pub open spec fn last_n<T>(s: Seq<T>, n: nat) -> Seq<T> {
    if s.len() <= n {
        s
    } else {
        s.skip(s.len() - n)
    }
}

/// How one message reads in the `## Last messages` section: its thinking
/// as `[thinking]: ...` and its content as `role: ...`, joined by a space;
/// nothing for a system message.
pub open spec fn message_line(m: Json) -> Seq<char> {
    let role = match field_text(m, "role"@) {
        Some(r) => r,
        None => "unknown"@,
    };
    if role == "system"@ {
        Seq::empty()
    } else {
        let thinking = text_or_empty(field_text(m, "thinking"@));
        let content = text_or_empty(field_text(m, "content"@));
        let p1: Seq<Seq<char>> = if thinking.len() > 0 {
            seq!["[thinking]: "@ + thinking]
        } else {
            Seq::empty()
        };
        let p2 = if content.len() > 0 {
            p1.push(role + ": "@ + content)
        } else {
            p1
        };
        join(p2, " "@)
    }
}

/// The lines of the given messages, leaving out those that read as nothing.
pub open spec fn message_lines(ms: Seq<Json>) -> Seq<Seq<char>>
    decreases ms.len(),
{
    if ms.len() == 0 {
        Seq::empty()
    } else {
        let line = message_line(ms.last());
        if line.len() > 0 {
            message_lines(ms.drop_last()).push(line)
        } else {
            message_lines(ms.drop_last())
        }
    }
}

/// `prompt`, followed by a blank line when it is not empty.
pub open spec fn then_blank_line(prompt: Seq<char>) -> Seq<char> {
    if prompt.len() > 0 {
        prompt + "\n\n"@
    } else {
        prompt
    }
}

/// The messages at the given indices.
pub open spec fn pick(ms: Seq<Json>, idx: Seq<int>) -> Seq<Json> {
    idx.map_values(|i: int| ms[i])
}

/// The system prompt sent when summarization is on: the base prompt, then
/// the summary under `## Context`, then the last `n` non-system messages
/// under `## Last messages`, each part after a blank line.
pub open spec fn augmented_prompt(
    system_prompt: Option<Seq<char>>,
    summary: Option<Seq<char>>,
    n: nat,
    ms: Seq<Json>,
) -> Seq<char> {
    let p1 = text_or_empty(system_prompt);
    let s = text_or_empty(summary);
    let p2 = if s.len() > 0 {
        then_blank_line(p1) + "## Context\n"@ + s
    } else {
        p1
    };
    let lines = message_lines(pick(ms, last_n(non_system_indices(ms), n)));
    if lines.len() > 0 {
        then_blank_line(p2) + "## Last messages\n"@ + join(lines, "\n"@)
    } else {
        p2
    }
}

pub open spec fn opt_text(o: Option<String>) -> Option<Seq<char>> {
    match o {
        Some(s) => Some(s@),
        None => None,
    }
}

// ---------------------------------------------------------------------------
// Executable
// ---------------------------------------------------------------------------

/// Whether two strings hold the same text.
pub fn same_text(a: &str, b: &str) -> (res: bool)
    ensures
        res == (a@ == b@),
{
    let x = chars_of(a);
    let y = chars_of(b);
    chars_eq(&x, &y)
}

/// Whether `m` is a system message.
pub fn is_system_message(m: &Json) -> (res: bool)
    ensures
        res == is_system(*m),
{
    match get_text(m, "role") {
        Some(r) => same_text(r, "system"),
        None => false,
    }
}

/// How one message reads in the `## Last messages` section.
pub fn format_message_content(msg: &Json) -> (res: String)
    ensures
        res@ == message_line(*msg),
{
    let role: Vec<char> = match get_text(msg, "role") {
        Some(r) => chars_of(r),
        None => chars_of("unknown"),
    };
    let system = chars_of("system");
    if chars_eq(&role, &system) {
        return String::new();
    }
    let thinking = match get_text(msg, "thinking") {
        Some(t) => chars_of(t),
        None => Vec::new(),
    };
    let content = match get_text(msg, "content") {
        Some(c) => chars_of(c),
        None => Vec::new(),
    };
    let mut out: Vec<char> = Vec::new();
    let ghost p1: Seq<Seq<char>> = if thinking@.len() > 0 {
        seq!["[thinking]: "@ + thinking@]
    } else {
        Seq::empty()
    };
    if thinking.len() > 0 {
        append_str(&mut out, "[thinking]: ");
        append_chars(&mut out, &thinking);
        assert(out@ == join(p1, " "@));
    }
    if content.len() > 0 {
        if thinking.len() > 0 {
            append_str(&mut out, " ");
        }
        append_chars(&mut out, &role);
        append_str(&mut out, ": ");
        append_chars(&mut out, &content);
        proof {
            let p2 = p1.push(role@ + ": "@ + content@);
            assert(p2.drop_last() =~= p1);
            if thinking@.len() > 0 {
                assert(out@ =~= join(p1, " "@) + " "@ + (role@ + ": "@ + content@));
            } else {
                assert(out@ =~= role@ + ": "@ + content@);
            }
        }
    }
    string_of(&out)
}

/// Appends `part` to `prompt`, after a blank line when `prompt` is not
/// empty.
fn push_section(prompt: &mut Vec<char>, heading: &str, body: &Vec<char>)
    ensures
        final(prompt)@ == then_blank_line(old(prompt)@) + heading@ + body@,
{
    if prompt.len() > 0 {
        append_str(prompt, "\n\n");
    }
    append_str(prompt, heading);
    append_chars(prompt, body);
}

/// The indices of the last `n` messages that are not system messages.
pub fn recent_message_indices(messages: &Vec<Json>, n: u32) -> (res: Vec<usize>)
    ensures
        res@.map_values(|i: usize| i as int) == last_n(non_system_indices(messages@), n as nat),
        forall|k: int| 0 <= k < res@.len() ==> res@[k] < messages@.len(),
{
    let mut all: Vec<usize> = Vec::new();
    let mut i: usize = 0;
    assert(messages@.take(0) =~= Seq::<Json>::empty());
    while i < messages.len()
        invariant
            0 <= i <= messages.len(),
            all@.map_values(|j: usize| j as int) == non_system_indices(messages@.take(i as int)),
            forall|k: int| 0 <= k < all@.len() ==> all@[k] < i,
        decreases messages.len() - i,
    {
        proof {
            assert(messages@.take(i + 1).drop_last() =~= messages@.take(i as int));
            assert(messages@.take(i + 1).last() == messages@[i as int]);
        }
        if !is_system_message(&messages[i]) {
            let ghost before = all@;
            all.push(i);
            assert(all@.map_values(|j: usize| j as int) =~= before.map_values(|j: usize| j as int).push(
                i as int,
            ));
        }
        i = i + 1;
    }
    assert(messages@.take(messages.len() as int) =~= messages@);
    let total = all.len();
    let nn = n as usize;
    let start: usize = if total <= nn {
        0
    } else {
        total - nn
    };
    let mut res: Vec<usize> = Vec::new();
    let mut k: usize = start;
    while k < total
        invariant
            start <= k <= total == all.len(),
            res@ == all@.subrange(start as int, k as int),
            forall|q: int| 0 <= q < all@.len() ==> all@[q] < messages@.len(),
        decreases total - k,
    {
        res.push(all[k]);
        assert(all@.subrange(start as int, k + 1) =~= all@.subrange(start as int, k as int).push(
            all@[k as int],
        ));
        k = k + 1;
    }
    proof {
        let full = all@.map_values(|j: usize| j as int);
        assert(res@.map_values(|j: usize| j as int) =~= last_n(full, n as nat));
    }
    res
}

/// The system prompt sent when summarization is on: the base prompt, then
/// the summary under `## Context`, then the last `context_messages`
/// non-system messages under `## Last messages`.
pub fn build_augmented_system_prompt(
    system_prompt: &Option<String>,
    summary: &Option<String>,
    context_messages: u32,
    messages: &Vec<Json>,
) -> (res: String)
    ensures
        res@ == augmented_prompt(
            opt_text(*system_prompt),
            opt_text(*summary),
            context_messages as nat,
            messages@,
        ),
{
    let mut prompt: Vec<char> = Vec::new();
    if let Some(base) = system_prompt {
        append_str(&mut prompt, base.as_str());
    }
    if let Some(summary_text) = summary {
        let s = chars_of(summary_text.as_str());
        if s.len() > 0 {
            push_section(&mut prompt, "## Context\n", &s);
        }
    }
    let recent = recent_message_indices(messages, context_messages);
    let ghost picked = pick(messages@, recent@.map_values(|i: usize| i as int));
    let mut lines: Vec<Vec<char>> = Vec::new();
    let mut j: usize = 0;
    assert(picked.take(0) =~= Seq::<Json>::empty());
    while j < recent.len()
        invariant
            0 <= j <= recent.len(),
            picked == pick(messages@, recent@.map_values(|i: usize| i as int)),
            picked.len() == recent.len(),
            forall|k: int| 0 <= k < recent@.len() ==> recent@[k] < messages@.len(),
            lines@.map_values(|l: Vec<char>| l@) == message_lines(picked.take(j as int)),
        decreases recent.len() - j,
    {
        let idx = recent[j];
        let line = chars_of(format_message_content(&messages[idx]).as_str());
        proof {
            assert(picked[j as int] == messages@[idx as int]);
            assert(picked.take(j + 1).drop_last() =~= picked.take(j as int));
            assert(picked.take(j + 1).last() == picked[j as int]);
        }
        if line.len() > 0 {
            let ghost before = lines@;
            lines.push(line);
            assert(lines@.map_values(|l: Vec<char>| l@) =~= before.map_values(|l: Vec<char>| l@).push(
                line@,
            ));
        }
        j = j + 1;
    }
    assert(picked.take(recent.len() as int) =~= picked);
    if lines.len() > 0 {
        let joined = join_lines(&lines);
        push_section(&mut prompt, "## Last messages\n", &joined);
    }
    string_of(&prompt)
}

// ---------------------------------------------------------------------------
// Requests and history
// ---------------------------------------------------------------------------

/// What a request sends: the system message, when the augmented prompt is
/// not empty, then the history messages at the given indices.
#[derive(Debug)]
pub struct RequestPlan {
    pub system: Option<Json>,
    pub history: Vec<usize>,
}

/// The messages sent when summarization is on: the augmented system prompt
/// (when not empty), then the last `context_messages` non-system messages.
pub fn build_request_messages(
    system_prompt: &Option<String>,
    summary: &Option<String>,
    context_messages: u32,
    messages: &Vec<Json>,
) -> (res: RequestPlan)
    ensures
        ({
            let p = augmented_prompt(
                opt_text(*system_prompt),
                opt_text(*summary),
                context_messages as nat,
                messages@,
            );
            &&& p.len() > 0 ==> (res.system matches Some(m) && text_object(
                m,
                seq![("role"@, "system"@), ("content"@, p)],
            ))
            &&& p.len() == 0 ==> res.system is None
        }),
        res.history@.map_values(|i: usize| i as int) == last_n(
            non_system_indices(messages@),
            context_messages as nat,
        ),
        forall|k: int| 0 <= k < res.history@.len() ==> res.history@[k] < messages@.len(),
{
    let prompt = build_augmented_system_prompt(system_prompt, summary, context_messages, messages);
    let pc = chars_of(prompt.as_str());
    let system = if pc.len() > 0 {
        Some(system_message(prompt.as_str()))
    } else {
        None
    };
    let history = recent_message_indices(messages, context_messages);
    RequestPlan { system, history }
}

/// What each request of a run sends: with summarization, the plan of
/// `build_request_messages`; without, every message of the history.
pub fn plan_request_messages(
    summarize: bool,
    system_prompt: &Option<String>,
    summary: &Option<String>,
    context_messages: u32,
    messages: &Vec<Json>,
) -> (res: RequestPlan)
    ensures
        summarize ==> ({
            let p = augmented_prompt(
                opt_text(*system_prompt),
                opt_text(*summary),
                context_messages as nat,
                messages@,
            );
            &&& p.len() > 0 ==> (res.system matches Some(m) && text_object(
                m,
                seq![("role"@, "system"@), ("content"@, p)],
            ))
            &&& p.len() == 0 ==> res.system is None
            &&& res.history@.map_values(|i: usize| i as int) == last_n(
                non_system_indices(messages@),
                context_messages as nat,
            )
        }),
        !summarize ==> res.system is None && res.history@.len() == messages@.len() && forall|k: int|
            0 <= k < messages@.len() ==> res.history@[k] == k,
        forall|k: int| 0 <= k < res.history@.len() ==> res.history@[k] < messages@.len(),
{
    if summarize {
        return build_request_messages(system_prompt, summary, context_messages, messages);
    }
    let mut history: Vec<usize> = Vec::new();
    let mut i: usize = 0;
    while i < messages.len()
        invariant
            0 <= i <= messages.len(),
            history@.len() == i,
            forall|k: int| 0 <= k < i ==> history@[k] == k,
        decreases messages.len() - i,
    {
        history.push(i);
        i = i + 1;
    }
    RequestPlan { system: None, history }
}

/// The request of one round: the model, the messages and the tools; the
/// temperature and token limit when set; thinking asked for only when it is
/// on.
pub fn round_request(
    model: String,
    messages: Vec<Json>,
    tools: Vec<Json>,
    temperature: Option<Json>,
    max_tokens: Option<u32>,
    think: bool,
) -> (res: ChatRequest)
    ensures
        res == (ChatRequest {
            model,
            messages,
            tools,
            stream: true,
            temperature,
            max_tokens,
            think: if think {
                Some(true)
            } else {
                None
            },
        }),
{
    ChatRequest {
        model,
        messages,
        tools,
        stream: true,
        temperature,
        max_tokens,
        think: if think {
            Some(true)
        } else {
            None
        },
    }
}

/// The patch that reports a new state: `{"op": "replace", "path": "",
/// "value": state}`.
pub fn state_patch(state: Json) -> (res: Json)
    ensures
        res is Object,
        members(res).len() == 3,
        field_text(res, "op"@) == Some("replace"@),
        field_text(res, "path"@) == Some(Seq::<char>::empty()),
        json_get(res, "value"@) == Some(state),
{
    proof {
        reveal_strlit("op");
        reveal_strlit("path");
        reveal_strlit("value");
        reveal_strlit("");
        assert("op"@.len() == 2 && "path"@.len() == 4 && "value"@.len() == 5);
    }
    let ghost gs = state;
    let mut m = Json::empty_object();
    let ghost s0 = members(m);
    let op = text_value("replace");
    let ghost gop = op;
    m.insert(owned("op"), op);
    proof { crate::client::lemma_insert_facts(s0, "op"@, gop); }
    let ghost s1 = members(m);
    let path = text_value("");
    let ghost gpath = path;
    m.insert(owned("path"), path);
    proof { crate::client::lemma_insert_facts(s1, "path"@, gpath); }
    let ghost s2 = members(m);
    m.insert(owned("value"), state);
    proof { crate::client::lemma_insert_facts(s2, "value"@, gs); }
    m
}

/// How many model requests a run makes at most unless told otherwise.
pub fn default_max_rounds() -> (res: usize)
    ensures
        res == 10,
{
    10
}

/// Whether some message has the role `system`.
pub fn has_system_message(messages: &Vec<Json>) -> (res: bool)
    ensures
        res == exists|i: int| 0 <= i < messages@.len() && is_system(#[trigger] messages@[i]),
{
    let mut i: usize = 0;
    while i < messages.len()
        invariant
            0 <= i <= messages.len(),
            forall|k: int| 0 <= k < i ==> !is_system(#[trigger] messages@[k]),
        decreases messages.len() - i,
    {
        if is_system_message(&messages[i]) {
            return true;
        }
        i = i + 1;
    }
    false
}

/// The history a session starts from: the stored messages, preceded by the
/// system prompt as a system message when there is a non-empty one and the
/// stored messages hold no system message.
pub fn with_initial_messages(system_prompt: &Option<String>, prior: Vec<Json>) -> (res: Vec<Json>)
    ensures
        ({
            let sp = text_or_empty(opt_text(*system_prompt));
            let add = sp.len() > 0 && !(exists|i: int| 0 <= i < prior@.len() && is_system(#[trigger] prior@[i]));
            &&& add ==> (res@.len() == prior@.len() + 1 && text_object(
                res@[0],
                seq![("role"@, "system"@), ("content"@, sp)],
            ) && res@.skip(1) == prior@)
            &&& !add ==> res@ == prior@
        }),
{
    let has_system = has_system_message(&prior);
    match system_prompt {
        Some(system) => {
            let sc = chars_of(system.as_str());
            if sc.len() > 0 && !has_system {
                let mut res: Vec<Json> = Vec::new();
                res.push(system_message(system.as_str()));
                let mut rest = prior;
                let ghost p = rest@;
                res.append(&mut rest);
                assert(res@.skip(1) =~= p);
                return res;
            }
            prior
        },
        None => prior,
    }
}

/// Whether `j` is `{"function": {"name": name, "arguments": args}}`.
pub open spec fn call_entry(j: Json, name: Seq<char>, args: Json) -> bool {
    &&& j is Object
    &&& members(j).len() == 1
    &&& json_get(j, "function"@) matches Some(f) && {
        &&& f is Object
        &&& members(f).len() == 2
        &&& field_text(f, "name"@) == Some(name)
        &&& json_get(f, "arguments"@) == Some(args)
    }
}

/// The entry of one call in an assistant message.
fn call_entry_value(name: String, args: Json) -> (res: Json)
    ensures
        call_entry(res, name@, args),
{
    let ghost nm = name@;
    let ghost a = args;
    let mut f = Json::empty_object();
    let ghost f0 = members(f);
    f.insert(owned("arguments"), args);
    let ghost f1 = members(f);
    let nv = Json::String(name);
    let ghost n = nv;
    f.insert(owned("name"), nv);
    let ghost ff = f;
    let mut e = Json::empty_object();
    let ghost e0 = members(e);
    e.insert(owned("function"), f);
    proof {
        reveal_strlit("arguments");
        reveal_strlit("name");
        assert("arguments"@[0] == 'a' && "name"@[0] == 'n');
        assert("arguments"@ != "name"@);
        lemma_lookup_insert(f0, "arguments"@, a, "arguments"@);
        lemma_lookup_insert(f0, "arguments"@, a, "name"@);
        lemma_lookup_insert(f1, "name"@, n, "name"@);
        lemma_lookup_insert(f1, "name"@, n, "arguments"@);
        lemma_sorted_insert_len(f0, "arguments"@, a);
        lemma_sorted_insert_len(f1, "name"@, n);
        lemma_lookup_insert(e0, "function"@, ff, "function"@);
        lemma_sorted_insert_len(e0, "function"@, ff);
    }
    e
}

/// The tool calls of an assistant message: one entry per call, in order.
pub open spec fn call_entries(v: Seq<Json>, calls: Seq<(String, Json)>) -> bool {
    &&& v.len() == calls.len()
    &&& forall|i: int| 0 <= i < v.len() ==> call_entry(#[trigger] v[i], calls[i].0@, calls[i].1)
}

/// Facts about one insertion into the members of an assistant turn.
proof fn lemma_turn_insert(s: Seq<(Seq<char>, Json)>, k: Seq<char>, v: Json)
    ensures
        crate::ordmap::lookup(crate::ordmap::sorted_insert(s, k, v), k) == Some(v),
        forall|q: Seq<char>|
            q != k ==> #[trigger] crate::ordmap::lookup(crate::ordmap::sorted_insert(s, k, v), q)
                == crate::ordmap::lookup(s, q),
        crate::ordmap::lookup(s, k) is None ==> crate::ordmap::sorted_insert(s, k, v).len() == s.len()
            + 1,
{
    lemma_lookup_insert(s, k, v, k);
    assert forall|q: Seq<char>| q != k implies #[trigger] crate::ordmap::lookup(
        crate::ordmap::sorted_insert(s, k, v),
        q,
    ) == crate::ordmap::lookup(s, q) by {
        lemma_lookup_insert(s, k, v, q);
    }
    lemma_sorted_insert_len(s, k, v);
}

/// What `assistant_turn` makes: an object with the role, the text, the
/// thinking when there was any and the tool calls when there were any.
pub open spec fn is_assistant_turn(
    t: Json,
    content: Seq<char>,
    thinking: Seq<char>,
    calls: Seq<(String, Json)>,
) -> bool {
    &&& t is Object
    &&& field_text(t, "role"@) == Some("assistant"@)
    &&& field_text(t, "content"@) == Some(content)
    &&& thinking.len() > 0 ==> field_text(t, "thinking"@) == Some(thinking)
    &&& thinking.len() == 0 ==> json_get(t, "thinking"@) is None
    &&& calls.len() > 0 ==> (json_get(t, "tool_calls"@) matches Some(Json::Array(v)) && call_entries(
        v@,
        calls,
    ))
    &&& calls.len() == 0 ==> json_get(t, "tool_calls"@) is None
    &&& members(t).len() == 2 + (if thinking.len() > 0 {
        1int
    } else {
        0
    }) + (if calls.len() > 0 {
        1int
    } else {
        0
    })
}

/// A tool's answer as it is kept in the history.
pub open spec fn is_tool_result(m: Json, name: Seq<char>, content: Seq<char>) -> bool {
    text_object(m, seq![("role"@, "tool"@), ("name"@, name), ("content"@, content)])
}

/// The history after a round: the history so far, then the model's answer
/// with its tool calls, then the answer given to each call, in order.
pub fn next_history(
    history: Vec<Json>,
    content: &str,
    thinking: &str,
    calls: Vec<(String, Json)>,
    results: &Vec<(String, String)>,
) -> (res: Vec<Json>)
    ensures
        res@.len() == history@.len() + 1 + results@.len(),
        res@.take(history@.len() as int) == history@,
        is_assistant_turn(res@[history@.len() as int], content@, thinking@, calls@),
        forall|k: int|
            0 <= k < results@.len() ==> is_tool_result(
                #[trigger] res@[history@.len() + 1 + k],
                results@[k].0@,
                results@[k].1@,
            ),
{
    let ghost cs = calls@;
    let ghost h = history@;
    let mut res = history;
    let turn = assistant_turn(content, thinking, calls);
    res.push(turn);
    assert(res@.take(h.len() as int) =~= h);
    let mut k: usize = 0;
    while k < results.len()
        invariant
            0 <= k <= results.len(),
            res@.len() == h.len() + 1 + k,
            res@.take(h.len() as int) == h,
            is_assistant_turn(res@[h.len() as int], content@, thinking@, cs),
            forall|j: int|
                0 <= j < k ==> is_tool_result(#[trigger] res@[h.len() + 1 + j], results@[j].0@, results@[j].1@),
        decreases results.len() - k,
    {
        let m = tool_result_message(results[k].0.as_str(), results[k].1.as_str());
        let ghost before = res@;
        res.push(m);
        proof {
            assert(res@.take(h.len() as int) =~= before.take(h.len() as int));
            assert(res@[h.len() as int] == before[h.len() as int]);
            assert forall|j: int| 0 <= j < k + 1 implies is_tool_result(
                #[trigger] res@[h.len() + 1 + j],
                results@[j].0@,
                results@[j].1@,
            ) by {
                if j < k {
                    assert(res@[h.len() + 1 + j] == before[h.len() + 1 + j]);
                }
            }
        }
        k = k + 1;
    }
    res
}

/// The assistant's turn as it is kept in the history: its text, its
/// thinking when there was any, and its tool calls when there were any.
pub fn assistant_turn(content: &str, thinking: &str, calls: Vec<(String, Json)>) -> (res: Json)
    ensures
        res is Object,
        field_text(res, "role"@) == Some("assistant"@),
        field_text(res, "content"@) == Some(content@),
        thinking@.len() > 0 ==> field_text(res, "thinking"@) == Some(thinking@),
        thinking@.len() == 0 ==> json_get(res, "thinking"@) is None,
        calls@.len() > 0 ==> (json_get(res, "tool_calls"@) matches Some(Json::Array(v))
            && call_entries(v@, calls@)),
        calls@.len() == 0 ==> json_get(res, "tool_calls"@) is None,
        members(res).len() == 2 + (if thinking@.len() > 0 {
            1int
        } else {
            0
        }) + (if calls@.len() > 0 {
            1int
        } else {
            0
        }),
{
    proof {
        reveal_strlit("content");
        reveal_strlit("role");
        reveal_strlit("thinking");
        reveal_strlit("tool_calls");
        assert("content"@[0] == 'c' && "role"@[0] == 'r' && "thinking"@[0] == 't'
            && "tool_calls"@[0] == 't' && "thinking"@[1] == 'h' && "tool_calls"@[1] == 'o');
        assert("thinking"@ != "tool_calls"@);
        assert("thinking"@ != "content"@ && "thinking"@ != "role"@);
        assert("tool_calls"@ != "content"@ && "tool_calls"@ != "role"@);
        assert("content"@ != "role"@);
    }
    let ghost all = calls@;
    let mut m = Json::empty_object();
    let ghost m0 = members(m);
    let cv = text_value(content);
    let ghost c = cv;
    m.insert(owned("content"), cv);
    proof { lemma_turn_insert(m0, "content"@, c); }
    let ghost m1 = members(m);
    let rv = text_value("assistant");
    let ghost r = rv;
    m.insert(owned("role"), rv);
    proof { lemma_turn_insert(m1, "role"@, r); }
    let ghost m2 = members(m);
    assert(crate::ordmap::lookup(m2, "thinking"@) is None);
    assert(crate::ordmap::lookup(m2, "tool_calls"@) is None);
    let tc = chars_of(thinking);
    if tc.len() > 0 {
        let tv = text_value(thinking);
        let ghost t = tv;
        m.insert(owned("thinking"), tv);
        proof { lemma_turn_insert(m2, "thinking"@, t); }
    }
    let ghost m3 = members(m);
    assert(crate::ordmap::lookup(m3, "tool_calls"@) is None);
    if calls.len() > 0 {
        let mut entries: Vec<Json> = Vec::new();
        let mut rest = calls;
        let mut k: usize = 0;
        let n = rest.len();
        assert(all.skip(0) =~= all);
        while rest.len() > 0
            invariant
                k + rest@.len() == all.len(),
                all.len() == n,
                rest@ == all.skip(k as int),
                entries@.len() == k,
                forall|i: int| 0 <= i < k ==> call_entry(#[trigger] entries@[i], all[i].0@, all[i].1),
            decreases rest.len(),
        {
            let (nm, args) = rest.remove(0);
            assert(all[k as int] == (nm, args));
            assert(rest@ =~= all.skip(k + 1));
            entries.push(call_entry_value(nm, args));
            k = k + 1;
        }
        let arr = Json::Array(entries);
        let ghost a = arr;
        m.insert(owned("tool_calls"), arr);
        proof { lemma_turn_insert(m3, "tool_calls"@, a); }
    }
    m
}

// ---------------------------------------------------------------------------
// Tool call signatures
// ---------------------------------------------------------------------------

/// The text of argument `k`, or nothing.
pub open spec fn arg_text(args: Json, k: Seq<char>) -> Seq<char> {
    text_or_empty(field_text(args, k))
}

/// The key under which a tool call counts as already done: file tools by
/// their path (ignoring case), searches by pattern and path, memory tools by
/// key, and any other tool by its whole arguments as serialized JSON
/// (`args_json`).
pub open spec fn tool_signature(name: Seq<char>, args: Json, args_json: Seq<char>) -> Seq<char> {
    if name == "write_file"@ || name == "read_file"@ || name == "create_directory"@ || name
        == "list_directory"@ {
        name + ":"@ + lowercase(arg_text(args, "path"@))
    } else if name == "search_files"@ {
        "search_files:"@ + lowercase(arg_text(args, "pattern"@)) + ":"@ + lowercase(
            arg_text(args, "path"@),
        )
    } else if name == "grep_content"@ {
        "grep_content:"@ + arg_text(args, "pattern"@) + ":"@ + lowercase(arg_text(args, "path"@))
    } else if name == "memory_set"@ || name == "memory_get"@ {
        name + ":"@ + arg_text(args, "key"@)
    } else {
        name + ":"@ + args_json
    }
}

/// Argument `k` as characters, or none.
fn arg_chars(args: &Json, k: &str) -> (res: Vec<char>)
    ensures
        res@ == arg_text(*args, k@),
{
    match get_text(args, k) {
        Some(t) => chars_of(t),
        None => Vec::new(),
    }
}

/// The key under which a tool call counts as already done. `args_json` is
/// the call's arguments serialized as JSON.
pub fn compute_tool_signature(name: &str, args: &Json, args_json: &str) -> (res: String)
    ensures
        res@ == tool_signature(name@, *args, args_json@),
{
    let mut out = chars_of(name);
    if same_text(name, "write_file") || same_text(name, "read_file") || same_text(
        name,
        "create_directory",
    ) || same_text(name, "list_directory") {
        append_str(&mut out, ":");
        let p = lowercase_chars(&arg_chars(args, "path"));
        append_chars(&mut out, &p);
    } else if same_text(name, "search_files") {
        let pat = lowercase_chars(&arg_chars(args, "pattern"));
        let p = lowercase_chars(&arg_chars(args, "path"));
        out = chars_of("search_files:");
        append_chars(&mut out, &pat);
        append_str(&mut out, ":");
        append_chars(&mut out, &p);
    } else if same_text(name, "grep_content") {
        let pat = arg_chars(args, "pattern");
        let p = lowercase_chars(&arg_chars(args, "path"));
        out = chars_of("grep_content:");
        append_chars(&mut out, &pat);
        append_str(&mut out, ":");
        append_chars(&mut out, &p);
    } else if same_text(name, "memory_set") || same_text(name, "memory_get") {
        append_str(&mut out, ":");
        let k = arg_chars(args, "key");
        append_chars(&mut out, &k);
    } else {
        append_str(&mut out, ":");
        append_str(&mut out, args_json);
    }
    string_of(&out)
}

// ---------------------------------------------------------------------------
// The run controller
// ---------------------------------------------------------------------------

/// Whether a tool creates files or directories.
pub open spec fn creates_files(name: Seq<char>) -> bool {
    name == "write_file"@ || name == "create_directory"@
}

/// How many successful creations end further creation in a run.
pub open spec fn creation_cap() -> u32 {
    2
}

/// What is done with one tool call.
#[derive(Debug, Clone, Copy, PartialEq, Eq, Structural)]
pub enum CallDecision {
    /// The call is carried out.
    Execute,
    /// A call with the same signature was carried out earlier in the run.
    AlreadyCompleted,
    /// The run already created this many files or directories.
    CreationCapped(u32),
}

/// What a change of the session state is reported as.
#[derive(Debug, Clone, Copy, PartialEq, Eq, Structural)]
pub enum StateReport {
    Unchanged,
    Snapshot,
    Delta,
}

/// The controller's state.
pub struct LoopView {
    pub executed: Seq<Seq<char>>,
    pub dedup_streak: u32,
    pub creations: u32,
    pub snapshot_emitted: bool,
    pub rounds: usize,
    pub max_rounds: usize,
    pub round_all_deduped: bool,
    pub stopped: bool,
    pub pending: Option<bool>,
}

/// No signature occurs twice.
pub open spec fn distinct(s: Seq<Seq<char>>) -> bool {
    forall|i: int, j: int| 0 <= i < j < s.len() ==> s[i] != s[j]
}

impl LoopView {
    /// Whether another round is started: the run has not stopped and has
    /// rounds left.
    pub open spec fn starts_round(self) -> bool {
        !self.stopped && self.rounds < self.max_rounds
    }

    /// What holds of the controller throughout a run.
    pub open spec fn inv(self) -> bool {
        &&& distinct(self.executed)
        &&& self.creations <= creation_cap()
        &&& self.dedup_streak <= 2
        &&& self.dedup_streak >= 2 ==> self.stopped
        &&& self.rounds <= self.max_rounds
        &&& self.pending matches Some(c) ==> (c ==> self.creations < creation_cap())
    }

    /// The decision for a call named `name` with signature `sig`, and the
    /// state after it.
    pub open spec fn decide(self, name: Seq<char>, sig: Seq<char>) -> (CallDecision, LoopView) {
        if self.executed.contains(sig) {
            (CallDecision::AlreadyCompleted, self)
        } else if creates_files(name) && self.creations >= creation_cap() {
            (CallDecision::CreationCapped(self.creations), self)
        } else {
            (
                CallDecision::Execute,
                LoopView {
                    executed: self.executed.push(sig),
                    round_all_deduped: false,
                    pending: Some(creates_files(name)),
                    ..self
                },
            )
        }
    }

    /// The state after a carried-out call answered `text`: a creation counts
    /// when its answer does not begin with `Error`.
    pub open spec fn record(self, text: Seq<char>) -> LoopView {
        match self.pending {
            Some(c) => LoopView {
                creations: if c && !starts_with(text, "Error"@) {
                    (self.creations + 1) as u32
                } else {
                    self.creations
                },
                pending: None,
                ..self
            },
            None => self,
        }
    }

    /// Whether the run stops after the round, and the state after it: it
    /// stops after two rounds in a row whose calls were all turned away, and
    /// after a round whose calls were all turned away once two creations
    /// succeeded.
    pub open spec fn finish_round(self) -> (bool, LoopView) {
        if self.stopped {
            (true, self)
        } else {
            let streak = if self.round_all_deduped {
                (self.dedup_streak + 1) as u32
            } else {
                0u32
            };
            let stop = (self.round_all_deduped && streak >= 2) || (self.creations >= creation_cap()
                && self.round_all_deduped);
            (stop, LoopView { dedup_streak: streak, stopped: stop, ..self })
        }
    }
}

pub struct LoopController {
    executed: Vec<String>,
    dedup_streak: u32,
    creations: u32,
    snapshot_emitted: bool,
    rounds: usize,
    max_rounds: usize,
    round_all_deduped: bool,
    stopped: bool,
    pending: Option<bool>,
}

pub open spec fn string_views(v: Seq<String>) -> Seq<Seq<char>> {
    v.map_values(|s: String| s@)
}

impl View for LoopController {
    type V = LoopView;

    closed spec fn view(&self) -> LoopView {
        LoopView {
            executed: string_views(self.executed@),
            dedup_streak: self.dedup_streak,
            creations: self.creations,
            snapshot_emitted: self.snapshot_emitted,
            rounds: self.rounds,
            max_rounds: self.max_rounds,
            round_all_deduped: self.round_all_deduped,
            stopped: self.stopped,
            pending: self.pending,
        }
    }
}

/// The answer given for a call that repeats an earlier one.
pub open spec fn already_completed_text(name: Seq<char>) -> Seq<char> {
    "Action already completed: "@ + name
        + " was already called with similar arguments. Do not repeat this action. Respond to the user now."@
}

/// The answer given for a creation refused by the cap.
pub open spec fn capped_text(count: nat) -> Seq<char> {
    "Task completed: you have already created "@ + decimal(count)
        + " file(s). Stop creating more files and respond to the user with a summary of what was done."@
}

/// The text of a carried-out call's outcome.
pub open spec fn outcome_text(outcome: Result<String, AgentForgeError>) -> Seq<char> {
    match outcome {
        Ok(s) => s@,
        Err(e) => "Error: "@ + error_text(e),
    }
}

impl LoopController {
    /// The controller always satisfies `inv`.
    #[verifier::type_invariant]
    closed spec fn well_formed(self) -> bool {
        self@.inv()
    }

    /// A controller for a run of at most `max_rounds` model requests.
    pub fn new(max_rounds: usize) -> (res: Self)
        ensures
            res@ == (LoopView {
                executed: Seq::empty(),
                dedup_streak: 0,
                creations: 0,
                snapshot_emitted: false,
                rounds: 0,
                max_rounds,
                round_all_deduped: true,
                stopped: false,
                pending: None,
            }),
            res@.inv(),
    {
        let res = LoopController {
            executed: Vec::new(),
            dedup_streak: 0,
            creations: 0,
            snapshot_emitted: false,
            rounds: 0,
            max_rounds,
            round_all_deduped: true,
            stopped: false,
            pending: None,
        };
        assert(string_views(res.executed@) =~= Seq::<Seq<char>>::empty());
        res
    }

    /// Starts the next round, unless the run has stopped or used all its
    /// rounds.
    pub fn start_round(&mut self) -> (go: bool)
        ensures
            final(self)@.inv(),
            go == old(self)@.starts_round(),
            go ==> final(self)@ == (LoopView {
                rounds: (old(self)@.rounds + 1) as usize,
                round_all_deduped: true,
                ..old(self)@
            }),
            !go ==> final(self)@ == old(self)@,
    {
        proof {
            use_type_invariant(&*self);
        }
        if self.stopped || self.rounds >= self.max_rounds {
            return false;
        }
        self.rounds = self.rounds + 1;
        self.round_all_deduped = true;
        true
    }

    /// Ends the run: the model answered without calling any tool.
    pub fn stop(&mut self)
        ensures
            final(self)@ == (LoopView { stopped: true, ..old(self)@ }),
    {
        proof {
            use_type_invariant(&*self);
        }
        self.stopped = true;
    }

    /// Takes the model's answer of a round, which made `calls` tool calls:
    /// an answer without calls ends the run. Answers whether its calls are
    /// to be carried out.
    pub fn take_answer(&mut self, calls: usize) -> (go_on: bool)
        ensures
            final(self)@.inv(),
            go_on == (calls > 0),
            calls > 0 ==> final(self)@ == old(self)@,
            calls == 0 ==> final(self)@ == (LoopView { stopped: true, ..old(self)@ }),
            calls == 0 ==> !final(self)@.starts_round(),
    {
        proof {
            use_type_invariant(&*self);
        }
        if calls == 0 {
            self.stopped = true;
            return false;
        }
        true
    }

    /// Decides what is done with a call named `name` whose signature is
    /// `sig`: a repeated signature is turned away, a creation after the cap
    /// is refused, anything else is carried out and its signature recorded.
    pub fn decide(&mut self, name: &str, sig: String) -> (d: CallDecision)
        ensures
            final(self)@.inv(),
            (d, final(self)@) == old(self)@.decide(name@, sig@),
    {
        proof {
            use_type_invariant(&*self);
        }
        let sig_chars = chars_of(sig.as_str());
        let mut i: usize = 0;
        let ghost ex = self@.executed;
        while i < self.executed.len()
            invariant
                0 <= i <= self.executed.len(),
                self@ == old(self)@,
                old(self)@.inv(),
                ex == string_views(self.executed@),
                sig_chars@ == sig@,
                forall|k: int| 0 <= k < i ==> ex[k] != sig@,
            decreases self.executed.len() - i,
        {
            let e = chars_of(self.executed[i].as_str());
            if chars_eq(&e, &sig_chars) {
                assert(ex[i as int] == sig@);
                return CallDecision::AlreadyCompleted;
            }
            i = i + 1;
        }
        assert(!ex.contains(sig@));
        let creating = same_text(name, "write_file") || same_text(name, "create_directory");
        if creating && self.creations >= 2 {
            return CallDecision::CreationCapped(self.creations);
        }
        let ghost before = self.executed@;
        let mut executed: Vec<String> = Vec::new();
        std::mem::swap(&mut executed, &mut self.executed);
        assert(executed@ == before);
        executed.push(sig);
        assert(string_views(executed@) =~= string_views(before).push(sig@));
        self.executed = executed;
        self.round_all_deduped = false;
        self.pending = Some(creating);
        CallDecision::Execute
    }

    /// Records the outcome of a call that was carried out, and returns the
    /// text it is answered with.
    pub fn record(&mut self, outcome: Result<String, AgentForgeError>) -> (text: String)
        ensures
            final(self)@.inv(),
            text@ == outcome_text(outcome),
            final(self)@ == old(self)@.record(outcome_text(outcome)),
    {
        proof {
            use_type_invariant(&*self);
        }
        let ghost o = outcome;
        let text = match outcome {
            Ok(s) => s,
            Err(e) => {
                let mut t = chars_of("Error: ");
                append_str(&mut t, e.display().as_str());
                string_of(&t)
            },
        };
        match self.pending {
            Some(c) => {
                let tc = chars_of(text.as_str());
                let err = chars_of("Error");
                self.pending = None;
                if c && !has_prefix(&tc, &err) {
                    self.creations = self.creations + 1;
                }
            },
            None => {},
        }
        text
    }

    /// The answer for a call that is not carried out.
    pub fn refusal_text(name: &str, d: &CallDecision) -> (text: String)
        ensures
            match *d {
                CallDecision::AlreadyCompleted => text@ == already_completed_text(name@),
                CallDecision::CreationCapped(n) => text@ == capped_text(n as nat),
                CallDecision::Execute => text@ == Seq::<char>::empty(),
            },
    {
        match d {
            CallDecision::AlreadyCompleted => {
                let mut t = chars_of("Action already completed: ");
                append_str(&mut t, name);
                append_str(
                    &mut t,
                    " was already called with similar arguments. Do not repeat this action. Respond to the user now.",
                );
                string_of(&t)
            },
            CallDecision::CreationCapped(n) => {
                let mut t = chars_of("Task completed: you have already created ");
                append_decimal(&mut t, *n as u64);
                append_str(
                    &mut t,
                    " file(s). Stop creating more files and respond to the user with a summary of what was done.",
                );
                string_of(&t)
            },
            CallDecision::Execute => String::new(),
        }
    }

    /// Ends a round; answers whether the run stops.
    pub fn finish_round(&mut self) -> (stop: bool)
        ensures
            final(self)@.inv(),
            (stop, final(self)@) == old(self)@.finish_round(),
    {
        proof {
            use_type_invariant(&*self);
        }
        if self.stopped {
            return true;
        }
        let streak: u32 = if self.round_all_deduped {
            self.dedup_streak + 1
        } else {
            0
        };
        let stop = (self.round_all_deduped && streak >= 2) || (self.creations >= 2
            && self.round_all_deduped);
        self.stopped = stop;
        self.dedup_streak = streak;
        stop
    }

    /// How a change of the session state after a round is reported: the
    /// first change in a run as a snapshot, later ones as deltas.
    pub fn state_change(&mut self, changed: bool) -> (r: StateReport)
        ensures
            r == report_of(old(self)@.snapshot_emitted, changed),
            final(self)@ == (LoopView {
                snapshot_emitted: old(self)@.snapshot_emitted || changed,
                ..old(self)@
            }),
    {
        proof {
            use_type_invariant(&*self);
        }
        if !changed {
            return StateReport::Unchanged;
        }
        if !self.snapshot_emitted {
            self.snapshot_emitted = true;
            StateReport::Snapshot
        } else {
            StateReport::Delta
        }
    }

    /// Whether the run ends with a snapshot: the state differs from where
    /// the run began and no snapshot was sent during it.
    pub fn final_snapshot(&self, changed_since_start: bool) -> (r: bool)
        ensures
            r == (changed_since_start && !self@.snapshot_emitted),
    {
        changed_since_start && !self.snapshot_emitted
    }
}

/// A run never carries out two calls with the same signature, never counts
/// more than two creations, and never starts more rounds than allowed:
/// every step of the controller keeps `inv`.
pub proof fn lemma_controller_steps_keep_inv(v: LoopView, name: Seq<char>, sig: Seq<char>, text: Seq<char>)
    requires
        v.inv(),
    ensures
        v.decide(name, sig).1.inv(),
        v.record(text).inv(),
        v.finish_round().1.inv(),
{
    let (d, w) = v.decide(name, sig);
    if !v.executed.contains(sig) && !(creates_files(name) && v.creations >= creation_cap()) {
        assert forall|i: int, j: int| 0 <= i < j < w.executed.len() implies w.executed[i]
            != w.executed[j] by {
            if j == v.executed.len() {
                assert(v.executed[i] == w.executed[i]);
            }
        }
    }
}

/// A call whose signature was carried out earlier in the run is turned away
/// and changes nothing.
pub proof fn lemma_repeat_is_refused(v: LoopView, name: Seq<char>, sig: Seq<char>)
    requires
        v.executed.contains(sig),
    ensures
        v.decide(name, sig) == (CallDecision::AlreadyCompleted, v),
{
}

/// Once two creations succeeded, no creation that is not a repeat is carried
/// out.
pub proof fn lemma_creation_cap(v: LoopView, name: Seq<char>, sig: Seq<char>)
    requires
        v.creations >= creation_cap(),
        creates_files(name),
        !v.executed.contains(sig),
    ensures
        v.decide(name, sig) == (CallDecision::CreationCapped(v.creations), v),
{
}

/// A round in which some call was carried out never stops a run that has
/// not stopped, whatever was created: the model is asked again.
pub proof fn lemma_round_with_calls_goes_on(v: LoopView)
    requires
        !v.stopped,
        !v.round_all_deduped,
    ensures
        !v.finish_round().0,
        !v.finish_round().1.stopped,
        v.finish_round().1.dedup_streak == 0,
{
}

/// After a call is carried out (and its answer recorded), the round does
/// not end the run, even when the call was a creation that reached the cap.
pub proof fn lemma_executed_call_keeps_run(v: LoopView, name: Seq<char>, sig: Seq<char>, text: Seq<char>)
    requires
        !v.stopped,
        v.decide(name, sig).0 is Execute,
    ensures
        !v.decide(name, sig).1.record(text).finish_round().0,
{
    let v1 = v.decide(name, sig).1;
    assert(!v1.round_all_deduped && !v1.stopped);
    let v2 = v1.record(text);
    assert(!v2.round_all_deduped && !v2.stopped);
    lemma_round_with_calls_goes_on(v2);
}

/// Two rounds in a row whose calls were all turned away end the run.
pub proof fn lemma_two_refused_rounds_stop(v: LoopView)
    requires
        !v.stopped,
        v.round_all_deduped,
        v.dedup_streak == 1,
    ensures
        v.finish_round().0,
{
}

/// A file tool called again on a path that differs only in case counts as
/// a repeat: it has the same signature, and is turned away once the first
/// call was carried out.
pub proof fn lemma_path_case_is_ignored(
    v: LoopView,
    name: Seq<char>,
    first: Json,
    first_json: Seq<char>,
    again: Json,
    again_json: Seq<char>,
)
    requires
        name == "write_file"@ || name == "read_file"@ || name == "create_directory"@ || name
            == "list_directory"@,
        lowercase(arg_text(first, "path"@)) == lowercase(arg_text(again, "path"@)),
        v.executed.contains(tool_signature(name, first, first_json)),
    ensures
        tool_signature(name, again, again_json) == tool_signature(name, first, first_json),
        v.decide(name, tool_signature(name, again, again_json)) == (CallDecision::AlreadyCompleted, v),
{
}

/// Two rounds in a row in which every call was turned away end the run:
/// the second round's end stops it, and no further round (so no further
/// request to the model) is started.
pub proof fn lemma_refused_rounds_end_requests(v: LoopView)
    requires
        v.inv(),
        !v.stopped,
        v.round_all_deduped,
        v.dedup_streak == 1,
    ensures
        v.finish_round().0,
        !v.finish_round().1.starts_round(),
{
}

/// How a state change after a round is reported, given whether a snapshot
/// was already sent (as `LoopController::state_change` reports it).
pub open spec fn report_of(emitted: bool, changed: bool) -> StateReport {
    if !changed {
        StateReport::Unchanged
    } else if !emitted {
        StateReport::Snapshot
    } else {
        StateReport::Delta
    }
}

/// Whether some round of `changes` changed the state.
pub open spec fn any_change(changes: Seq<bool>) -> bool {
    exists|i: int| 0 <= i < changes.len() && changes[i]
}

/// The reports of a run's rounds, one per round, from a run in which no
/// snapshot was sent yet.
pub open spec fn state_reports(changes: Seq<bool>) -> Seq<StateReport>
    decreases changes.len(),
{
    if changes.len() == 0 {
        Seq::empty()
    } else {
        state_reports(changes.drop_last()).push(
            report_of(any_change(changes.drop_last()), changes.last()),
        )
    }
}

/// Each round's report: a snapshot for the first change, deltas for later
/// ones.
pub proof fn lemma_state_reports_each(changes: Seq<bool>)
    ensures
        state_reports(changes).len() == changes.len(),
        forall|i: int|
            0 <= i < changes.len() ==> #[trigger] state_reports(changes)[i] == report_of(
                any_change(changes.take(i)),
                changes[i],
            ),
    decreases changes.len(),
{
    if changes.len() > 0 {
        let init = changes.drop_last();
        lemma_state_reports_each(init);
        assert forall|i: int| 0 <= i < changes.len() implies #[trigger] state_reports(changes)[i]
            == report_of(any_change(changes.take(i)), changes[i]) by {
            if i < changes.len() - 1 {
                assert(init.take(i) =~= changes.take(i));
                assert(init[i] == changes[i]);
            } else {
                assert(init =~= changes.take(i));
            }
        }
    }
}

/// In a run, at most one snapshot is reported, no delta comes before it,
/// and the run ends with a snapshot exactly when the state changed overall
/// and none was reported during it.
pub proof fn lemma_one_snapshot_per_run(changes: Seq<bool>, changed_overall: bool)
    ensures
        forall|i: int, j: int|
            0 <= i < j < changes.len() && #[trigger] state_reports(changes)[j] == StateReport::Snapshot
                ==> #[trigger] state_reports(changes)[i] != StateReport::Snapshot
                && state_reports(changes)[i] != StateReport::Delta,
        (changed_overall && !any_change(changes)) == (changed_overall && !exists|i: int|
            0 <= i < changes.len() && #[trigger] state_reports(changes)[i] == StateReport::Snapshot),
{
    lemma_state_reports_each(changes);
    assert forall|i: int, j: int|
        0 <= i < j < changes.len() && #[trigger] state_reports(changes)[j] == StateReport::Snapshot
            implies #[trigger] state_reports(changes)[i] != StateReport::Snapshot
            && state_reports(changes)[i] != StateReport::Delta by {
        if changes[i] {
            assert(changes.take(j)[i] == changes[i]);
            assert(any_change(changes.take(j)));
        }
    }
    if any_change(changes) {
        let k = choose|k: int| 0 <= k < changes.len() && changes[k] && forall|m: int|
            0 <= m < k ==> !changes[m];
        assert(exists|k: int| 0 <= k < changes.len() && changes[k] && forall|m: int|
            0 <= m < k ==> !changes[m]) by {
            lemma_first_change(changes);
        }
        if !any_change(changes.take(k)) {
            assert(state_reports(changes)[k] == StateReport::Snapshot);
        } else {
            let m = choose|m: int| 0 <= m < changes.take(k).len() && changes.take(k)[m];
            assert(changes[m]);
        }
    } else {
        assert forall|i: int| 0 <= i < changes.len() implies #[trigger] state_reports(changes)[i]
            != StateReport::Snapshot by {
            assert(!changes[i]);
        }
    }
}

proof fn lemma_first_change(changes: Seq<bool>)
    requires
        any_change(changes),
    ensures
        exists|k: int| 0 <= k < changes.len() && changes[k] && forall|m: int| 0 <= m < k ==> !changes[m],
    decreases changes.len(),
{
    if any_change(changes.drop_last()) {
        lemma_first_change(changes.drop_last());
        let k = choose|k: int| 0 <= k < changes.drop_last().len() && changes.drop_last()[k] && forall|m: int|
            0 <= m < k ==> !changes.drop_last()[m];
        assert(changes[k]);
        assert forall|m: int| 0 <= m < k implies !changes[m] by {
            assert(changes.drop_last()[m] == changes[m]);
        }
    } else {
        let k = changes.len() - 1;
        assert(changes[k]) by {
            let i = choose|i: int| 0 <= i < changes.len() && changes[i];
            if i < k {
                assert(changes.drop_last()[i] == changes[i]);
            }
        }
        assert forall|m: int| 0 <= m < k implies !changes[m] by {
            assert(changes.drop_last()[m] == changes[m]);
        }
    }
}

} // verus!

