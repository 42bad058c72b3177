//! Session memory: the `memory_set` and `memory_get` tools over the
//! session's state object.
use vstd::prelude::*;
use crate::client::owned;
use crate::tools::schema::{declares, lemma_declares, object_schema, parameter, parameter_shape};

use crate::error::AgentForgeError;
use crate::json::{field_text, json_get, members, Json};
use crate::ordmap::{keyed_view, lemma_lookup_insert, lookup, ordmap_find, sorted_insert};
use crate::text::{append_str, chars_of, string_of};
use crate::tools::{is_invalid_request, required_text};

verus! {

/// Takes member `key` out of an object, leaving the rest.
pub fn take_member(args: Json, key: &str) -> (res: Option<Json>)
    ensures
        res == json_get(args, key@),
{
    match args {
        Json::Object(mut m) => {
            match ordmap_find(&m, key) {
                Some(i) => {
                    let ghost before = m@;
                    let entry = m.remove(i);
                    assert(entry == before[i as int]);
                    Some(entry.1)
                },
                None => None,
            }
        },
        _ => None,
    }
}

/// The value `memory_set` stores: the `value` argument, or null.
pub open spec fn stored_value(args: Json) -> Json {
    match json_get(args, "value"@) {
        Some(v) => v,
        None => Json::Null,
    }
}

/// The members of the state after `key` is set: the state's own members
/// when it is an object, else none.
pub open spec fn state_after_set(state: Json, key: Seq<char>, value: Json) -> Seq<(Seq<char>, Json)> {
    sorted_insert(
        if state is Object {
            members(state)
        } else {
            Seq::empty()
        },
        key,
        value,
    )
}

/// `memory_set`: stores `value` under `key` in the session state (turning a
/// state that is not an object into one) and answers
/// `Stored '<key>' in memory`.
pub fn memory_set(state: &mut Json, args: Json) -> (res: Result<String, AgentForgeError>)
    ensures
        match field_text(args, "key"@) {
            None => res matches Err(e) && is_invalid_request(e, "key must be a string"@)
                && *final(state) == *old(state),
            Some(k) => res matches Ok(r) && r@ == "Stored '"@ + k + "' in memory"@
                && *final(state) is Object
                && members(*final(state)) == state_after_set(*old(state), k, stored_value(args)),
        },
{
    let key = required_text(&args, "key", "key must be a string")?;
    let ghost k = key@;
    let value = match take_member(args, "value") {
        Some(v) => v,
        None => Json::Null,
    };
    let mut msg = chars_of("Stored '");
    append_str(&mut msg, key.as_str());
    append_str(&mut msg, "' in memory");
    if !matches!(state, Json::Object(_)) {
        *state = Json::empty_object();
    }
    state.insert(key, value);
    Ok(string_of(&msg))
}

/// `memory_get`: the value stored under `key`, if any.
pub fn memory_get<'a>(state: &'a Json, args: &Json) -> (res: Result<Option<&'a Json>, AgentForgeError>)
    ensures
        match field_text(*args, "key"@) {
            None => res matches Err(e) && is_invalid_request(e, "key must be a string"@),
            Some(k) => res matches Ok(found) && match found {
                Some(v) => json_get(*state, k) == Some(*v),
                None => json_get(*state, k) is None,
            },
        },
{
    let key = required_text(args, "key", "key must be a string")?;
    Ok(state.get(key.as_str()))
}

/// The answer when nothing is stored under `key`.
pub fn not_found_report(key: &str) -> (res: String)
    ensures
        res@ == "Key '"@ + key@ + "' not found in memory"@,
{
    let mut out = chars_of("Key '");
    append_str(&mut out, key);
    append_str(&mut out, "' not found in memory");
    string_of(&out)
}

/// What `memory_get` finds after `memory_set` stored a value under a key:
/// that value; other keys are found as before.
pub proof fn lemma_memory_set_then_get(state: Json, key: Seq<char>, value: Json, other: Seq<char>)
    requires
        state is Object,
    ensures
        lookup(state_after_set(state, key, value), key) == Some(value),
        other != key ==> lookup(state_after_set(state, key, value), other) == json_get(state, other),
{
    lemma_lookup_insert(members(state), key, value, key);
    lemma_lookup_insert(members(state), key, value, other);
}

/// The name the model calls the `memory_set` tool by.
pub fn memory_set_name() -> (res: &'static str)
    ensures
        res@ == "memory_set"@,
{
    "memory_set"
}

/// What the `memory_set` tool is for, as the model is told.
pub fn memory_set_description() -> (res: &'static str)
    ensures
        res@ == "Store a key-value pair in the agent's session memory. The value persists across turns within the conversation."@,
{
    "Store a key-value pair in the agent's session memory. The value persists across turns within the conversation."
}

/// The arguments the `memory_set` tool takes.
pub fn memory_set_schema() -> (res: Json)
    ensures
        declares(
            res,
            seq![
                ("key"@, Some("string"@), "The key to store the value under"@),
                ("value"@, None, "The value to store (can be string, number, object, or array)"@),
            ],
            seq!["key"@, "value"@],
        ),
{
    let k0 = owned("key");
    let p0 = parameter(Some("string"), "The key to store the value under");
    let ghost g0 = (k0@, p0);
    let k1 = owned("value");
    let p1 = parameter(None, "The value to store (can be string, number, object, or array)");
    let ghost g1 = (k1@, p1);
    let props = vec![(k0, p0), (k1, p1)];
    let ghost fields = keyed_view(props@);
    let required = vec!["key", "value"];
    let res = object_schema(props, &required);
    proof {
        reveal_strlit("key");
        reveal_strlit("value");
        assert("key"@.len() == 3 && "value"@.len() == 5);
        let params = seq![("key"@, Some("string"@), "The key to store the value under"@), ("value"@, None, "The value to store (can be string, number, object, or array)"@)];
        assert(fields =~= seq![g0, g1]);
        assert(required@.map_values(|s: &str| s@) =~= seq!["key"@, "value"@]);
        assert forall|i: int| 0 <= i < params.len() implies (#[trigger] fields[i]).0 == params[i].0
            && parameter_shape(fields[i].1, params[i].1, params[i].2) by {
            if i == 0 {} else if i == 1 {}
        }
        lemma_declares(res, fields, params, seq!["key"@, "value"@]);
    }
    res
}

/// The name the model calls the `memory_get` tool by.
pub fn memory_get_name() -> (res: &'static str)
    ensures
        res@ == "memory_get"@,
{
    "memory_get"
}

/// What the `memory_get` tool is for, as the model is told.
pub fn memory_get_description() -> (res: &'static str)
    ensures
        res@ == "Retrieve a value from the agent's session memory by key. Returns the stored value or 'not found' if the key doesn't exist."@,
{
    "Retrieve a value from the agent's session memory by key. Returns the stored value or 'not found' if the key doesn't exist."
}

/// The arguments the `memory_get` tool takes.
pub fn memory_get_schema() -> (res: Json)
    ensures
        declares(
            res,
            seq![
                ("key"@, Some("string"@), "The key to look up in memory"@),
            ],
            seq!["key"@],
        ),
{
    let k0 = owned("key");
    let p0 = parameter(Some("string"), "The key to look up in memory");
    let ghost g0 = (k0@, p0);
    let props = vec![(k0, p0)];
    let ghost fields = keyed_view(props@);
    let required = vec!["key"];
    let res = object_schema(props, &required);
    proof {
        reveal_strlit("key");
        assert("key"@.len() == 3);
        let params = seq![("key"@, Some("string"@), "The key to look up in memory"@)];
        assert(fields =~= seq![g0]);
        assert(required@.map_values(|s: &str| s@) =~= seq!["key"@]);
        assert forall|i: int| 0 <= i < params.len() implies (#[trigger] fields[i]).0 == params[i].0
            && parameter_shape(fields[i].1, params[i].1, params[i].2) by {
            if i == 0 {}
        }
        lemma_declares(res, fields, params, seq!["key"@]);
    }
    res
}

} // verus!
