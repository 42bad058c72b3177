//! Model clients: the messages sent, which provider serves a
//! configuration, and how streamed answers are read.
use vstd::prelude::*;

use crate::config::ProviderConfig;
use crate::error::{error_detail, AgentForgeError};
use crate::json::{as_text, field_text, json_get, members, Json, JsonNumber};
use crate::ordmap::{lemma_lookup_insert, lemma_sorted_insert_len, lookup};
use crate::text::{
    append_str, chars_of, has_prefix, lines, slice_chars, split_lines, starts_with, string_of,
    trim, trim_chars, views,
};

verus! {

/// One streamed piece of a model's answer.
#[derive(Debug)]
pub struct OllamaChunk {
    pub model: String,
    pub message: Option<OllamaMessage>,
    pub done: Option<bool>,
}

#[derive(Debug)]
pub struct OllamaMessage {
    pub role: String,
    pub content: String,
    pub thinking: Option<String>,
    pub tool_calls: Option<Vec<OllamaToolCall>>,
}

#[derive(Debug)]
pub struct OllamaToolCall {
    pub index: Option<usize>,
    pub function: OllamaFunction,
}

#[derive(Debug)]
pub struct OllamaFunction {
    pub name: String,
    pub arguments: Json,
    /// The arguments serialized as JSON.
    pub arguments_json: String,
}

// ---------------------------------------------------------------------------
// Messages
// ---------------------------------------------------------------------------

/// A string value holding `s`.
pub fn text_value(s: &str) -> (res: Json)
    ensures
        as_text(Some(res)) == Some(s@),
{
    Json::String(string_of(&chars_of(s)))
}

/// A `String` holding `s`.
pub fn owned(s: &str) -> (res: String)
    ensures
        res@ == s@,
{
    string_of(&chars_of(s))
}

/// Whether `j` is an object whose members are exactly the given keys, each
/// holding the given text.
pub open spec fn text_object(j: Json, fields: Seq<(Seq<char>, Seq<char>)>) -> bool {
    &&& j is Object
    &&& members(j).len() == fields.len()
    &&& forall|i: int| 0 <= i < fields.len() ==> field_text(j, #[trigger] fields[i].0) == Some(fields[i].1)
}

/// `{"role": role, "content": content}`.
pub fn role_message(role: &str, content: &str) -> (res: Json)
    ensures
        text_object(res, seq![("role"@, role@), ("content"@, content@)]),
{
    let mut m = Json::empty_object();
    let ghost m0 = members(m);
    let cv = text_value(content);
    let ghost c = cv;
    m.insert(owned("content"), cv);
    let ghost m1 = members(m);
    let rv = text_value(role);
    let ghost r = rv;
    m.insert(owned("role"), rv);
    proof {
        reveal_strlit("content");
        reveal_strlit("role");
        assert("content"@[0] == 'c' && "role"@[0] == 'r');
        assert("content"@ != "role"@);
        lemma_lookup_insert(m0, "content"@, c, "content"@);
        lemma_lookup_insert(m0, "content"@, c, "role"@);
        lemma_lookup_insert(m1, "role"@, r, "role"@);
        lemma_lookup_insert(m1, "role"@, r, "content"@);
        lemma_sorted_insert_len(m0, "content"@, c);
        lemma_sorted_insert_len(m1, "role"@, r);
        let f = seq![("role"@, role@), ("content"@, content@)];
        assert(field_text(m, f[0].0) == Some(f[0].1));
        assert(field_text(m, f[1].0) == Some(f[1].1));
    }
    m
}

/// A user message.
pub fn user_message(content: &str) -> (res: Json)
    ensures
        text_object(res, seq![("role"@, "user"@), ("content"@, content@)]),
{
    role_message("user", content)
}

/// A system message.
pub fn system_message(content: &str) -> (res: Json)
    ensures
        text_object(res, seq![("role"@, "system"@), ("content"@, content@)]),
{
    role_message("system", content)
}

/// An assistant message.
pub fn assistant_message(content: &str) -> (res: Json)
    ensures
        text_object(res, seq![("role"@, "assistant"@), ("content"@, content@)]),
{
    role_message("assistant", content)
}

/// The message that carries a tool's answer back to the model.
pub fn tool_result_message(name: &str, content: &str) -> (res: Json)
    ensures
        text_object(
            res,
            seq![("role"@, "tool"@), ("name"@, name@), ("content"@, content@)],
        ),
{
    let mut m = Json::empty_object();
    let ghost m0 = members(m);
    let cv = text_value(content);
    let ghost c = cv;
    m.insert(owned("content"), cv);
    let ghost m1 = members(m);
    let nv = text_value(name);
    let ghost n = nv;
    m.insert(owned("name"), nv);
    let ghost m2 = members(m);
    let rv = text_value("tool");
    let ghost r = rv;
    m.insert(owned("role"), rv);
    proof {
        reveal_strlit("content");
        reveal_strlit("role");
        reveal_strlit("name");
        assert("content"@[0] == 'c' && "role"@[0] == 'r' && "name"@[0] == 'n');
        assert("name"@ != "role"@);
        assert("name"@ != "content"@);
        assert("content"@ != "role"@);
        lemma_lookup_insert(m0, "content"@, c, "content"@);
        lemma_lookup_insert(m0, "content"@, c, "name"@);
        lemma_lookup_insert(m0, "content"@, c, "role"@);
        lemma_lookup_insert(m1, "name"@, n, "name"@);
        lemma_lookup_insert(m1, "name"@, n, "content"@);
        lemma_lookup_insert(m1, "name"@, n, "role"@);
        lemma_lookup_insert(m2, "role"@, r, "role"@);
        lemma_lookup_insert(m2, "role"@, r, "name"@);
        lemma_lookup_insert(m2, "role"@, r, "content"@);
        lemma_sorted_insert_len(m0, "content"@, c);
        lemma_sorted_insert_len(m1, "name"@, n);
        lemma_sorted_insert_len(m2, "role"@, r);
        let f = seq![("role"@, "tool"@), ("name"@, name@), ("content"@, content@)];
        assert(field_text(m, f[0].0) == Some(f[0].1));
        assert(field_text(m, f[1].0) == Some(f[1].1));
        assert(field_text(m, f[2].0) == Some(f[2].1));
    }
    m
}

/// `{"type": "function", "function": {"name": .., "description": ..,
/// "parameters": ..}}`: a tool as the model is told of it.
pub fn tool_definition_to_ollama(name: &str, description: &str, parameters: Json) -> (res: Json)
    ensures
        res is Object,
        members(res).len() == 2,
        field_text(res, "type"@) == Some("function"@),
        json_get(res, "function"@) matches Some(f) && {
            &&& f is Object
            &&& members(f).len() == 3
            &&& field_text(f, "name"@) == Some(name@)
            &&& field_text(f, "description"@) == Some(description@)
            &&& json_get(f, "parameters"@) == Some(parameters)
        },
{
    proof {
        reveal_strlit("name");
        reveal_strlit("description");
        reveal_strlit("parameters");
        reveal_strlit("type");
        reveal_strlit("function");
        assert("name"@[0] == 'n' && "description"@[0] == 'd' && "parameters"@[0] == 'p'
            && "type"@[0] == 't' && "function"@[0] == 'f');
    }
    let ghost p = parameters;
    let mut f = Json::empty_object();
    let ghost f0 = members(f);
    f.insert(owned("parameters"), parameters);
    proof { lemma_insert_facts(f0, "parameters"@, p); }
    let ghost f1 = members(f);
    let nv = text_value(name);
    let ghost n = nv;
    f.insert(owned("name"), nv);
    proof { lemma_insert_facts(f1, "name"@, n); }
    let ghost f2 = members(f);
    let dv = text_value(description);
    let ghost d = dv;
    f.insert(owned("description"), dv);
    proof { lemma_insert_facts(f2, "description"@, d); }
    let ghost ff = f;
    let mut m = Json::empty_object();
    let ghost m0 = members(m);
    m.insert(owned("function"), f);
    proof { lemma_insert_facts(m0, "function"@, ff); }
    let ghost m1 = members(m);
    let tv = text_value("function");
    let ghost t = tv;
    m.insert(owned("type"), tv);
    proof { lemma_insert_facts(m1, "type"@, t); }
    m
}

/// Facts about one insertion into an object's members.
pub proof fn lemma_insert_facts(s: Seq<(Seq<char>, Json)>, k: Seq<char>, v: Json)
    ensures
        lookup(crate::ordmap::sorted_insert(s, k, v), k) == Some(v),
        forall|q: Seq<char>|
            q != k ==> #[trigger] lookup(crate::ordmap::sorted_insert(s, k, v), q) == lookup(s, q),
        lookup(s, k) is None ==> crate::ordmap::sorted_insert(s, k, v).len() == s.len() + 1,
{
    lemma_lookup_insert(s, k, v, k);
    assert forall|q: Seq<char>| q != k implies #[trigger] lookup(
        crate::ordmap::sorted_insert(s, k, v),
        q,
    ) == lookup(s, q) by {
        lemma_lookup_insert(s, k, v, q);
    }
    lemma_sorted_insert_len(s, k, v);
}

// ---------------------------------------------------------------------------
// Providers
// ---------------------------------------------------------------------------

/// Which client serves a provider configuration.
#[derive(Debug, Clone, PartialEq)]
pub enum ClientChoice {
    Ollama { base_url: String },
    OpenRouter { api_key: String, base_url: String },
}

/// The client for a provider: Ollama, or OpenRouter when an API key is
/// configured; any other provider name is refused.
pub fn create_client(provider: &ProviderConfig) -> (res: Result<ClientChoice, AgentForgeError>)
    ensures
        provider.name@ == "ollama"@ ==> (res matches Ok(ClientChoice::Ollama { base_url })
            && base_url@ == provider.url@),
        provider.name@ == "openrouter"@ ==> match provider.api_key {
            Some(k) => res matches Ok(ClientChoice::OpenRouter { api_key, base_url })
                && api_key@ == k@ && base_url@ == provider.url@,
            None => res matches Err(e) && e is Config && error_detail(e)
                == "OpenRouter provider requires an 'api_key'"@,
        },
        provider.name@ != "ollama"@ && provider.name@ != "openrouter"@ ==> (res matches Err(e)
            && e is Config && error_detail(e) == "Unknown provider: '"@ + provider.name@
            + "'. Available providers: ollama, openrouter"@),
{
    proof {
        reveal_strlit("ollama");
        reveal_strlit("openrouter");
        assert("ollama"@.len() != "openrouter"@.len());
    }
    if crate::session::same_text(provider.name.as_str(), "ollama") {
        return Ok(ClientChoice::Ollama { base_url: owned(provider.url.as_str()) });
    }
    if crate::session::same_text(provider.name.as_str(), "openrouter") {
        return match &provider.api_key {
            Some(k) => Ok(
                ClientChoice::OpenRouter {
                    api_key: owned(k.as_str()),
                    base_url: owned(provider.url.as_str()),
                },
            ),
            None => Err(AgentForgeError::Config(owned("OpenRouter provider requires an 'api_key'"))),
        };
    }
    let mut m = chars_of("Unknown provider: '");
    append_str(&mut m, provider.name.as_str());
    append_str(&mut m, "'. Available providers: ollama, openrouter");
    Err(AgentForgeError::Config(string_of(&m)))
}

// ---------------------------------------------------------------------------
// Requests
// ---------------------------------------------------------------------------

/// A request for one streamed chat answer.
#[derive(Debug)]
pub struct ChatRequest {
    pub model: String,
    pub messages: Vec<Json>,
    pub tools: Vec<Json>,
    pub stream: bool,
    /// The sampling temperature, as the number that stands for it in a
    /// request body.
    pub temperature: Option<Json>,
    pub max_tokens: Option<u32>,
    pub think: Option<bool>,
}

impl ChatRequest {
    /// A streamed request with no tools and no sampling settings.
    pub fn new(model: String, messages: Vec<Json>) -> (res: Self)
        ensures
            res == (ChatRequest {
                model,
                messages,
                tools: res.tools,
                stream: true,
                temperature: None,
                max_tokens: None,
                think: None,
            }),
            res.tools@.len() == 0,
    {
        ChatRequest {
            model,
            messages,
            tools: Vec::new(),
            stream: true,
            temperature: None,
            max_tokens: None,
            think: None,
        }
    }

    pub fn with_tools(self, tools: Vec<Json>) -> (res: Self)
        ensures
            res == (ChatRequest { tools, ..self }),
    {
        ChatRequest { tools, ..self }
    }

    pub fn with_temperature(self, temperature: Json) -> (res: Self)
        ensures
            res == (ChatRequest { temperature: Some(temperature), ..self }),
    {
        ChatRequest { temperature: Some(temperature), ..self }
    }

    pub fn with_max_tokens(self, max_tokens: u32) -> (res: Self)
        ensures
            res == (ChatRequest { max_tokens: Some(max_tokens), ..self }),
    {
        ChatRequest { max_tokens: Some(max_tokens), ..self }
    }

    pub fn with_think(self, think: bool) -> (res: Self)
        ensures
            res == (ChatRequest { think: Some(think), ..self }),
    {
        ChatRequest { think: Some(think), ..self }
    }
}

/// The members every request body has: `model`, `messages` and `stream`,
/// and `tools` when there are tools.
pub open spec fn common_members(res: Json, model: String, messages: Vec<Json>, stream: bool, tools: Vec<Json>) -> bool {
    &&& res is Object
    &&& json_get(res, "model"@) == Some(Json::String(model))
    &&& json_get(res, "messages"@) == Some(Json::Array(messages))
    &&& json_get(res, "stream"@) == Some(Json::Bool(stream))
    &&& json_get(res, "tools"@) == if tools@.len() > 0 {
        Some(Json::Array(tools))
    } else {
        None
    }
}

pub open spec fn count(b: bool) -> int {
    if b {
        1
    } else {
        0
    }
}

/// An Ollama request body: the common members; `options` holding the
/// `temperature` and the token limit (`num_predict`) when either is set;
/// and `think` when it is set.
pub open spec fn ollama_body(res: Json, r: ChatRequest) -> bool {
    &&& common_members(res, r.model, r.messages, r.stream, r.tools)
    &&& (r.temperature is None && r.max_tokens is None) ==> json_get(res, "options"@) is None
    &&& (r.temperature is Some || r.max_tokens is Some) ==> (json_get(res, "options"@) matches Some(o)
        && o is Object && members(o).len() == count(r.temperature is Some) + count(r.max_tokens is Some)
        && json_get(o, "temperature"@) == r.temperature
        && json_get(o, "num_predict"@) == match r.max_tokens {
        Some(n) => Some(Json::Number(JsonNumber::PosInt(n as u64))),
        None => None,
    })
    &&& json_get(res, "think"@) == match r.think {
        Some(b) => Some(Json::Bool(b)),
        None => None,
    }
    &&& members(res).len() == 3 + count(r.tools@.len() > 0) + count(r.temperature is Some
        || r.max_tokens is Some) + count(r.think is Some)
}

/// An OpenRouter request body: the common members, always streamed; the
/// `temperature` and `max_tokens` when set; and `reasoning`
/// `{"enabled": think}` when thinking is set.
pub open spec fn openrouter_body(res: Json, r: ChatRequest) -> bool {
    &&& common_members(res, r.model, r.messages, true, r.tools)
    &&& json_get(res, "temperature"@) == r.temperature
    &&& json_get(res, "max_tokens"@) == match r.max_tokens {
        Some(n) => Some(Json::Number(JsonNumber::PosInt(n as u64))),
        None => None,
    }
    &&& match r.think {
        Some(b) => json_get(res, "reasoning"@) matches Some(o) && o is Object && members(o).len() == 1
            && json_get(o, "enabled"@) == Some(Json::Bool(b)),
        None => json_get(res, "reasoning"@) is None,
    }
    &&& members(res).len() == 3 + count(r.tools@.len() > 0) + count(r.temperature is Some) + count(
        r.max_tokens is Some,
    ) + count(r.think is Some)
}

proof fn lemma_body_keys()
    ensures
        "model"@.len() == 5 && "model"@[0] == 'm',
        "messages"@.len() == 8,
        "stream"@.len() == 6,
        "tools"@.len() == 5 && "tools"@[0] == 't',
        "temperature"@.len() == 11 && "temperature"@[0] == 't',
        "max_tokens"@.len() == 10,
        "options"@.len() == 7 && "options"@[0] == 'o',
        "think"@.len() == 5 && "think"@[0] == 't' && "think"@[1] == 'h',
        "num_predict"@.len() == 11 && "num_predict"@[0] == 'n',
        "reasoning"@.len() == 9,
        "enabled"@.len() == 7,
        "tools"@[1] == 'o',
{
    reveal_strlit("model");
    reveal_strlit("messages");
    reveal_strlit("stream");
    reveal_strlit("tools");
    reveal_strlit("temperature");
    reveal_strlit("max_tokens");
    reveal_strlit("options");
    reveal_strlit("think");
    reveal_strlit("num_predict");
    reveal_strlit("reasoning");
    reveal_strlit("enabled");
}

/// The members every request body has.
fn common_body(model: String, messages: Vec<Json>, stream: bool, tools: Vec<Json>) -> (res: Json)
    ensures
        common_members(res, model, messages, stream, tools),
        members(res).len() == 3 + count(tools@.len() > 0),
        forall|k: Seq<char>|
            k != "model"@ && k != "messages"@ && k != "stream"@ && k != "tools"@ ==> #[trigger] json_get(
                res,
                k,
            ) is None,
{
    proof { lemma_body_keys(); }
    let ghost g_model = Json::String(model);
    let ghost g_messages = Json::Array(messages);
    let ghost g_tools = Json::Array(tools);
    let mut m = Json::empty_object();
    let ghost s0 = members(m);
    m.insert(owned("model"), Json::String(model));
    proof { lemma_insert_facts(s0, "model"@, g_model); }
    let ghost s1 = members(m);
    m.insert(owned("messages"), Json::Array(messages));
    proof { lemma_insert_facts(s1, "messages"@, g_messages); }
    let ghost s2 = members(m);
    m.insert(owned("stream"), Json::Bool(stream));
    proof { lemma_insert_facts(s2, "stream"@, Json::Bool(stream)); }
    let ghost s3 = members(m);
    if tools.len() > 0 {
        m.insert(owned("tools"), Json::Array(tools));
        proof { lemma_insert_facts(s3, "tools"@, g_tools); }
    }
    m
}

/// The body of an Ollama chat request (`OllamaClient::build_request`).
pub fn ollama_request_body(request: ChatRequest) -> (res: Json)
    ensures
        ollama_body(res, request),
{
    proof { lemma_body_keys(); }
    let ghost r = request;
    let temperature = request.temperature;
    let max_tokens = request.max_tokens;
    let think = request.think;
    let mut m = common_body(request.model, request.messages, request.stream, request.tools);
    let ghost mc = m;
    assert(json_get(mc, "options"@) is None);
    assert(json_get(mc, "think"@) is None);
    if temperature.is_some() || max_tokens.is_some() {
        let mut o = Json::empty_object();
        let ghost o0 = members(o);
        assert(o0.len() == 0);
        match temperature {
            Some(t) => {
                let ghost gt = t;
                o.insert(owned("temperature"), t);
                proof { lemma_insert_facts(o0, "temperature"@, gt); }
            },
            None => {},
        }
        let ghost o1 = members(o);
        assert(json_get(o, "temperature"@) == r.temperature);
        assert(json_get(o, "num_predict"@) is None);
        assert(members(o).len() == count(r.temperature is Some));
        match max_tokens {
            Some(n) => {
                let v = Json::Number(JsonNumber::PosInt(n as u64));
                let ghost gv = v;
                o.insert(owned("num_predict"), v);
                proof { lemma_insert_facts(o1, "num_predict"@, gv); }
            },
            None => {},
        }
        let ghost go = o;
        let ghost m0 = members(m);
        m.insert(owned("options"), o);
        proof { lemma_insert_facts(m0, "options"@, go); }
    }
    let ghost m1 = members(m);
    let ghost mo = m;
    assert(common_members(mo, r.model, r.messages, r.stream, r.tools));
    assert(json_get(mo, "think"@) is None);
    match think {
        Some(b) => {
            m.insert(owned("think"), Json::Bool(b));
            proof { lemma_insert_facts(m1, "think"@, Json::Bool(b)); }
        },
        None => {},
    }
    assert(json_get(m, "options"@) == json_get(mo, "options"@));
    m
}

/// The body of an OpenRouter chat request
/// (`OpenRouterClient::build_request`): always streamed, with the token
/// limit when one is set, and reasoning asked for when thinking is set.
pub fn openrouter_request_body(request: ChatRequest) -> (res: Json)
    ensures
        openrouter_body(res, request),
{
    proof { lemma_body_keys(); }
    let temperature = request.temperature;
    let max_tokens = request.max_tokens;
    let think = request.think;
    let mut m = common_body(request.model, request.messages, true, request.tools);
    assert(json_get(m, "temperature"@) is None);
    assert(json_get(m, "max_tokens"@) is None);
    assert(json_get(m, "reasoning"@) is None);
    let ghost m0 = members(m);
    match temperature {
        Some(t) => {
            let ghost gt = t;
            m.insert(owned("temperature"), t);
            proof { lemma_insert_facts(m0, "temperature"@, gt); }
        },
        None => {},
    }
    let ghost m1 = members(m);
    match max_tokens {
        Some(n) => {
            let v = Json::Number(JsonNumber::PosInt(n as u64));
            let ghost gv = v;
            m.insert(owned("max_tokens"), v);
            proof { lemma_insert_facts(m1, "max_tokens"@, gv); }
        },
        None => {},
    }
    let ghost m2 = members(m);
    match think {
        Some(b) => {
            let mut o = Json::empty_object();
            let ghost o0 = members(o);
            o.insert(owned("enabled"), Json::Bool(b));
            proof { lemma_insert_facts(o0, "enabled"@, Json::Bool(b)); }
            let ghost go = o;
            m.insert(owned("reasoning"), o);
            proof { lemma_insert_facts(m2, "reasoning"@, go); }
        },
        None => {},
    }
    m
}

// ---------------------------------------------------------------------------
// Streams
// ---------------------------------------------------------------------------

/// Whether a streamed line holds nothing but whitespace.
pub fn is_blank(line: &str) -> (res: bool)
    ensures
        res == (trim(line@).len() == 0),
{
    let t = trim_chars(&chars_of(line));
    t.len() == 0
}

/// Names `String::from_utf8`: the text of `bytes` when they are valid
/// UTF-8.
pub uninterp spec fn utf8_text(bytes: Seq<u8>) -> Option<Seq<char>>;

/// Names `String::from_utf8_lossy`: the text of `bytes`, each invalid
/// sequence replaced by U+FFFD.
pub uninterp spec fn utf8_lossy(bytes: Seq<u8>) -> Seq<char>;

/// `String::from_utf8_lossy`; valid UTF-8 comes back as the same text.
#[verifier::external_body]
fn decode_lossy(bytes: &[u8]) -> (res: String)
    ensures
        res@ == utf8_lossy(bytes@),
        utf8_text(bytes@) matches Some(t) ==> res@ == t,
{
    String::from_utf8_lossy(bytes).into_owned()
}

/// Names the message of the error that `String::from_utf8` gives for
/// `bytes` (its `to_string()`).
pub uninterp spec fn utf8_error_text(bytes: Seq<u8>) -> Seq<char>;

/// `String::from_utf8` on a copy of `bytes`, its error taken as its
/// message.
#[verifier::external_body]
pub(crate) fn decode_utf8(bytes: &[u8]) -> (res: Result<String, String>)
    ensures
        match res {
            Ok(s) => utf8_text(bytes@) == Some(s@),
            Err(e) => utf8_text(bytes@) is None && e@ == utf8_error_text(bytes@),
        },
{
    match String::from_utf8(bytes.to_vec()) {
        Ok(s) => Ok(s),
        Err(e) => Err(e.to_string()),
    }
}

/// One piece of an Ollama answer stream, before it is parsed: its text, or
/// nothing when it is blank; bytes that are not UTF-8 are refused.
pub fn ollama_stream_line(bytes: &[u8]) -> (res: Result<Option<String>, AgentForgeError>)
    ensures
        match utf8_text(bytes@) {
            None => res matches Err(e) && e is Agent && error_detail(e) == utf8_error_text(bytes@),
            Some(t) => if trim(t).len() == 0 {
                res matches Ok(None)
            } else {
                res matches Ok(Some(line)) && line@ == t
            },
        },
{
    match decode_utf8(bytes) {
        Ok(line) => {
            if is_blank(line.as_str()) {
                Ok(None)
            } else {
                Ok(Some(line))
            }
        },
        Err(e) => Err(AgentForgeError::Agent(e)),
    }
}

/// The JSON text that one line of an event stream carries, if any: a
/// `data: ` line's payload (the end marker `data: [DONE]` excepted), or a
/// line that is itself a JSON object.
pub open spec fn sse_payload(line: Seq<char>) -> Option<Seq<char>> {
    let t = trim(line);
    if t.len() == 0 || t == "data: [DONE]"@ {
        None
    } else if starts_with(t, "data: "@) {
        Some(t.skip(6))
    } else if starts_with(t, "{"@) {
        Some(t)
    } else {
        None
    }
}

/// The payloads of the lines, in order.
pub open spec fn sse_payloads(ls: Seq<Seq<char>>) -> Seq<Seq<char>>
    decreases ls.len(),
{
    if ls.len() == 0 {
        Seq::empty()
    } else {
        match sse_payload(ls.last()) {
            Some(p) => sse_payloads(ls.drop_last()).push(p),
            None => sse_payloads(ls.drop_last()),
        }
    }
}

/// The JSON texts carried by a piece of an event stream, in order.
pub fn parse_sse_bytes(bytes: &[u8]) -> (res: Vec<String>)
    ensures
        res@.map_values(|s: String| s@) == sse_payloads(lines(utf8_lossy(bytes@))),
        utf8_text(bytes@) matches Some(t) ==> res@.map_values(|s: String| s@) == sse_payloads(
            lines(t),
        ),
{
    let text = decode_lossy(bytes);
    let ls = split_lines(&chars_of(text.as_str()));
    let data = chars_of("data: ");
    let done = chars_of("data: [DONE]");
    let brace = chars_of("{");
    proof {
        reveal_strlit("data: ");
        assert(data@.len() == 6);
    }
    let mut res: Vec<String> = Vec::new();
    let mut i: usize = 0;
    assert(views(ls@).take(0) =~= Seq::<Seq<char>>::empty());
    while i < ls.len()
        invariant
            0 <= i <= ls.len(),
            views(ls@) == lines(utf8_lossy(bytes@)),
            data@ == "data: "@,
            data@.len() == 6,
            done@ == "data: [DONE]"@,
            brace@ == "{"@,
            res@.map_values(|s: String| s@) == sse_payloads(views(ls@).take(i as int)),
        decreases ls.len() - i,
    {
        proof {
            assert(views(ls@).take(i + 1).drop_last() =~= views(ls@).take(i as int));
            assert(views(ls@).take(i + 1).last() == ls@[i as int]@);
        }
        let t = trim_chars(&ls[i]);
        let ghost before = res@;
        if t.len() == 0 || crate::text::chars_eq(&t, &done) {
        } else if has_prefix(&t, &data) {
            let p = slice_chars(&t, 6, t.len());
            assert(p@ =~= t@.skip(6));
            res.push(string_of(&p));
            assert(res@.map_values(|s: String| s@) =~= before.map_values(|s: String| s@).push(p@));
        } else if has_prefix(&t, &brace) {
            res.push(string_of(&t));
            assert(res@.map_values(|s: String| s@) =~= before.map_values(|s: String| s@).push(t@));
        }
        i = i + 1;
    }
    assert(views(ls@).take(ls.len() as int) =~= views(ls@));
    res
}

/// One streamed piece of an OpenRouter answer.
pub struct StreamChunk {
    pub choices: Vec<Choice>,
}

pub struct Choice {
    pub delta: Delta,
    pub finish_reason: Option<String>,
}

pub struct Delta {
    pub content: Option<String>,
    pub reasoning_content: Option<String>,
    pub tool_calls: Option<Vec<ToolCallChunk>>,
}

pub struct ToolCallChunk {
    pub index: Option<usize>,
    pub function: ToolFunctionChunk,
}

pub struct ToolFunctionChunk {
    pub name: Option<String>,
    pub arguments: Option<Json>,
    /// The arguments serialized as JSON, when there are arguments.
    pub arguments_json: Option<String>,
}

/// Whether a finish reason ends the answer.
pub open spec fn finished_by(reason: Seq<char>) -> bool {
    reason == "stop"@ || reason == "tool_calls"@
}

/// An OpenRouter piece read as an Ollama piece: the first choice's text,
/// reasoning (as thinking) and tool calls (a missing name read as empty,
/// missing arguments as an empty object); no piece when there is no choice.
pub fn convert_chunk(chunk: StreamChunk) -> (res: Option<OllamaChunk>)
    ensures
        chunk.choices@.len() == 0 ==> res is None,
        chunk.choices@.len() > 0 ==> (res matches Some(c) && converted_chunk(c, chunk.choices@[0])),
{
    let mut choices = chunk.choices;
    if choices.len() == 0 {
        return None;
    }
    let ghost first0 = choices@[0];
    let first = choices.remove(0);
    assert(first == first0);
    let content = match first.delta.content {
        Some(c) => c,
        None => String::new(),
    };
    let thinking = first.delta.reasoning_content;
    let mut calls: Vec<OllamaToolCall> = Vec::new();
    match first.delta.tool_calls {
        Some(tcs) => {
            let ghost all = tcs@;
            let n = tcs.len();
            let mut rest = tcs;
            let mut k: usize = 0;
            assert(all.skip(0) =~= all);
            while rest.len() > 0
                invariant
                    k + rest@.len() == all.len(),
                    all.len() == n,
                    rest@ == all.skip(k as int),
                    calls@.len() == k,
                    forall|i: int| 0 <= i < k ==> converted_call(#[trigger] calls@[i], all[i]),
                decreases rest.len(),
            {
                let tc = rest.remove(0);
                assert(tc == all[k as int]);
                assert(rest@ =~= all.skip(k + 1));
                let name = match tc.function.name {
                    Some(nm) => nm,
                    None => String::new(),
                };
                let (arguments, arguments_json) = match tc.function.arguments {
                    Some(a) => {
                        let aj = match tc.function.arguments_json {
                            Some(t) => t,
                            None => owned("{}"),
                        };
                        (a, aj)
                    },
                    None => (Json::empty_object(), owned("{}")),
                };
                calls.push(
                    OllamaToolCall {
                        index: tc.index,
                        function: OllamaFunction { name, arguments, arguments_json },
                    },
                );
                k = k + 1;
            }
        },
        None => {},
    }
    let done = match &first.finish_reason {
        Some(r) => Some(
            crate::session::same_text(r.as_str(), "stop") || crate::session::same_text(
                r.as_str(),
                "tool_calls",
            ),
        ),
        None => None,
    };
    let tool_calls = if calls.len() == 0 {
        None
    } else {
        Some(calls)
    };
    Some(
        OllamaChunk {
            model: String::new(),
            message: Some(
                OllamaMessage { role: owned("assistant"), content, thinking, tool_calls },
            ),
            done,
        },
    )
}

/// An Ollama piece read from an OpenRouter choice.
pub open spec fn converted_chunk(c: OllamaChunk, first: Choice) -> bool {
    &&& c.model@ == Seq::<char>::empty()
    &&& c.done == match first.finish_reason {
        Some(r) => Some(finished_by(r@)),
        None => None::<bool>,
    }
    &&& c.message matches Some(m) && {
        &&& m.role@ == "assistant"@
        &&& m.content@ == match first.delta.content {
            Some(s) => s@,
            None => Seq::<char>::empty(),
        }
        &&& crate::session::stream::opt_chars(m.thinking) == crate::session::stream::opt_chars(
            first.delta.reasoning_content,
        )
        &&& converted_calls(m.tool_calls, first.delta.tool_calls)
    }
}

/// A call of a piece read as an Ollama call.
pub open spec fn converted_call(c: OllamaToolCall, t: ToolCallChunk) -> bool {
    &&& c.index == t.index
    &&& c.function.name@ == match t.function.name {
        Some(n) => n@,
        None => Seq::<char>::empty(),
    }
    &&& match t.function.arguments {
        Some(a) => c.function.arguments == a,
        None => c.function.arguments is Object && members(c.function.arguments).len() == 0,
    }
    &&& c.function.arguments_json@ == match (t.function.arguments, t.function.arguments_json) {
        (Some(_), Some(j)) => j@,
        _ => "{}"@,
    }
}

/// The calls of a piece read as Ollama calls: none when there are none.
pub open spec fn converted_calls(calls: Option<Vec<OllamaToolCall>>, from: Option<Vec<ToolCallChunk>>) -> bool {
    match from {
        Some(ts) if ts@.len() > 0 => calls matches Some(cs) && cs@.len() == ts@.len() && forall|i: int|
            0 <= i < ts@.len() ==> converted_call(#[trigger] cs@[i], ts@[i]),
        _ => calls is None,
    }
}

/// A converted piece keeps the arguments each tool call carried: a call
/// chunk with arguments `a` becomes a call with arguments `a`, whose JSON
/// text is the text the chunk gave; a call chunk without arguments becomes a
/// call with an empty object.
pub proof fn lemma_converted_calls_keep_arguments(c: OllamaChunk, first: Choice, i: int)
    requires
        converted_chunk(c, first),
        first.delta.tool_calls matches Some(ts) && 0 <= i < ts@.len(),
    ensures
        c.message matches Some(m) && m.tool_calls matches Some(cs) && {
            let t = first.delta.tool_calls->Some_0@[i];
            let call = cs@[i];
            &&& cs@.len() == first.delta.tool_calls->Some_0@.len()
            &&& call.index == t.index
            &&& (t.function.arguments matches Some(a) ==> call.function.arguments == a)
            &&& (t.function.arguments is None ==> call.function.arguments is Object && members(
                call.function.arguments,
            ).len() == 0)
            &&& ((t.function.arguments is Some && t.function.arguments_json is Some)
                ==> call.function.arguments_json@ == t.function.arguments_json->Some_0@)
        },
{
    let ts = first.delta.tool_calls->Some_0;
    let m = c.message->Some_0;
    let cs = m.tool_calls->Some_0;
    assert(converted_call(cs@[i], ts@[i]));
}

} // verus!


