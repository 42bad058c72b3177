//! The JSON schemas that tell the model what arguments a tool takes:
//! `{"type": "object", "properties": {..}, "required": [..]}`.
use vstd::prelude::*;

use crate::client::{lemma_insert_facts, owned, text_value};
use crate::json::{as_text, field_text, json_get, members, object_of, Json};
use crate::ordmap::{keyed_view, lemma_lookup_insert, lemma_sorted_insert_len, lookup, sorted_insert};

verus! {

/// One declared parameter: its name, its JSON type where it is given one,
/// and what it is for.
pub type ParamView = (Seq<char>, Option<Seq<char>>, Seq<char>);

/// `o` describes a parameter: `{"type": kind, "description": description}`,
/// without `type` when there is no kind.
pub open spec fn parameter_shape(o: Json, kind: Option<Seq<char>>, description: Seq<char>) -> bool {
    &&& o is Object
    &&& field_text(o, "description"@) == Some(description)
    &&& field_text(o, "type"@) == kind
    &&& members(o).len() == if kind is Some {
        2int
    } else {
        1
    }
}

/// `a` is an array of the given strings, in order.
pub open spec fn text_array(a: Json, items: Seq<Seq<char>>) -> bool {
    &&& a is Array
    &&& a->Array_0@.len() == items.len()
    &&& forall|i: int| 0 <= i < items.len() ==> as_text(Some(#[trigger] a->Array_0@[i])) == Some(items[i])
}

/// `res` is the schema of an object taking exactly the parameters
/// `params`, of which those named in `required` must be given.
pub open spec fn declares(res: Json, params: Seq<ParamView>, required: Seq<Seq<char>>) -> bool {
    &&& res is Object
    &&& members(res).len() == 3
    &&& field_text(res, "type"@) == Some("object"@)
    &&& json_get(res, "properties"@) matches Some(p) && {
        &&& p is Object
        &&& members(p).len() == params.len()
        &&& forall|i: int|
            0 <= i < params.len() ==> (json_get(p, #[trigger] params[i].0) matches Some(o)
                && parameter_shape(o, params[i].1, params[i].2))
    }
    &&& json_get(res, "required"@) matches Some(r) && text_array(r, required)
}

/// The value of the last field named `k`, if any.
pub open spec fn last_value(fields: Seq<(Seq<char>, Json)>, k: Seq<char>) -> Option<Json>
    decreases fields.len(),
{
    if fields.len() == 0 {
        None
    } else if fields.last().0 == k {
        Some(fields.last().1)
    } else {
        last_value(fields.drop_last(), k)
    }
}

/// Setting fields one after another leaves each key with the last value
/// set for it.
pub proof fn lemma_object_of_lookup(fields: Seq<(Seq<char>, Json)>, k: Seq<char>)
    ensures
        lookup(object_of(fields), k) == last_value(fields, k),
    decreases fields.len(),
{
    if fields.len() > 0 {
        lemma_object_of_lookup(fields.drop_last(), k);
        lemma_lookup_insert(object_of(fields.drop_last()), fields.last().0, fields.last().1, k);
    }
}

/// With distinct keys, each field is found under its key and none is lost.
pub proof fn lemma_object_of_distinct(fields: Seq<(Seq<char>, Json)>)
    requires
        forall|i: int, j: int| 0 <= i < j < fields.len() ==> fields[i].0 != fields[j].0,
    ensures
        object_of(fields).len() == fields.len(),
        forall|i: int| 0 <= i < fields.len() ==> lookup(object_of(fields), #[trigger] fields[i].0) == Some(fields[i].1),
    decreases fields.len(),
{
    if fields.len() > 0 {
        let init = fields.drop_last();
        lemma_object_of_distinct(init);
        let last = fields.last();
        lemma_object_of_lookup(init, last.0);
        assert(lookup(object_of(init), last.0) is None) by {
            if lookup(object_of(init), last.0) is Some {
                lemma_last_value_found(init, last.0);
                let i = choose|i: int| 0 <= i < init.len() && init[i].0 == last.0;
                assert(fields[i].0 == fields[fields.len() - 1].0);
            }
        }
        lemma_sorted_insert_len(object_of(init), last.0, last.1);
        assert forall|i: int| 0 <= i < fields.len() implies lookup(object_of(fields), #[trigger] fields[i].0) == Some(fields[i].1) by {
            lemma_lookup_insert(object_of(init), last.0, last.1, fields[i].0);
            if i < fields.len() - 1 {
                assert(init[i] == fields[i]);
            }
        }
    }
}

proof fn lemma_last_value_found(fields: Seq<(Seq<char>, Json)>, k: Seq<char>)
    requires
        last_value(fields, k) is Some,
    ensures
        exists|i: int| 0 <= i < fields.len() && fields[i].0 == k,
    decreases fields.len(),
{
    if fields.last().0 != k {
        lemma_last_value_found(fields.drop_last(), k);
        let i = choose|i: int| 0 <= i < fields.drop_last().len() && fields.drop_last()[i].0 == k;
        assert(fields[i].0 == k);
    }
}

/// `{"type": kind, "description": description}`, without `type` when no
/// kind is given.
pub fn parameter(kind: Option<&str>, description: &str) -> (res: Json)
    ensures
        parameter_shape(
            res,
            match kind {
                Some(k) => Some(k@),
                None => None,
            },
            description@,
        ),
{
    proof {
        reveal_strlit("description");
        reveal_strlit("type");
        assert("description"@[0] == 'd' && "type"@[0] == 't');
    }
    let mut m = Json::empty_object();
    let ghost s0 = members(m);
    let d = text_value(description);
    let ghost gd = d;
    m.insert(owned("description"), d);
    proof { lemma_insert_facts(s0, "description"@, gd); }
    match kind {
        Some(k) => {
            let ghost s1 = members(m);
            let t = text_value(k);
            let ghost gt = t;
            m.insert(owned("type"), t);
            proof { lemma_insert_facts(s1, "type"@, gt); }
        },
        None => {},
    }
    m
}

/// An object with the given fields, set in order.
pub fn object_from(fields: Vec<(String, Json)>) -> (res: Json)
    ensures
        res is Object,
        members(res) == object_of(keyed_view(fields@)),
{
    let ghost all = keyed_view(fields@);
    let n: usize = fields.len();
    let mut rest = fields;
    let mut m = Json::empty_object();
    let mut k: usize = 0;
    proof {
        assert(all.take(0) =~= Seq::<(Seq<char>, Json)>::empty());
        assert(keyed_view(rest@) =~= all.skip(0));
    }
    while rest.len() > 0
        invariant
            k + rest@.len() == all.len(),
            all.len() == n,
            keyed_view(rest@) == all.skip(k as int),
            m is Object,
            members(m) == object_of(all.take(k as int)),
        decreases rest.len(),
    {
        let ghost before = rest@;
        let (key, value) = rest.remove(0);
        proof {
            assert(keyed_view(before)[0] == all.skip(k as int)[0]);
            assert(keyed_view(rest@) =~= keyed_view(before).drop_first());
            assert(keyed_view(before).drop_first() =~= all.skip(k + 1));
            assert(all.take(k + 1).drop_last() =~= all.take(k as int));
            assert(all.take(k + 1).last() == all[k as int]);
        }
        m.insert(key, value);
        k = k + 1;
    }
    assert(all.take(k as int) =~= all);
    m
}

/// An array of the given strings.
pub fn string_array(items: &Vec<&str>) -> (res: Json)
    ensures
        text_array(res, items@.map_values(|s: &str| s@)),
{
    let mut out: Vec<Json> = Vec::new();
    let mut i: usize = 0;
    while i < items.len()
        invariant
            0 <= i <= items.len(),
            out@.len() == i,
            forall|j: int| 0 <= j < i ==> as_text(Some(#[trigger] out@[j])) == Some(items@[j]@),
        decreases items.len() - i,
    {
        out.push(text_value(items[i]));
        i = i + 1;
    }
    Json::Array(out)
}

/// The schema of an object with the given parameters, of which `required`
/// must be given.
pub fn object_schema(properties: Vec<(String, Json)>, required: &Vec<&str>) -> (res: Json)
    ensures
        res is Object,
        members(res).len() == 3,
        field_text(res, "type"@) == Some("object"@),
        json_get(res, "properties"@) matches Some(p) && p is Object && members(p) == object_of(
            keyed_view(properties@),
        ),
        json_get(res, "required"@) matches Some(r) && text_array(
            r,
            required@.map_values(|s: &str| s@),
        ),
{
    proof {
        reveal_strlit("type");
        reveal_strlit("properties");
        reveal_strlit("required");
        assert("type"@[0] == 't' && "properties"@[0] == 'p' && "required"@[0] == 'r');
    }
    let props = object_from(properties);
    let ghost gp = props;
    let req = string_array(required);
    let ghost gr = req;
    let mut m = Json::empty_object();
    let ghost s0 = members(m);
    let t = text_value("object");
    let ghost gt = t;
    m.insert(owned("type"), t);
    proof { lemma_insert_facts(s0, "type"@, gt); }
    let ghost s1 = members(m);
    m.insert(owned("properties"), props);
    proof { lemma_insert_facts(s1, "properties"@, gp); }
    let ghost s2 = members(m);
    m.insert(owned("required"), req);
    proof { lemma_insert_facts(s2, "required"@, gr); }
    m
}

/// A schema built by `object_schema` from fields that match `params` one
/// for one, with distinct names, declares exactly those parameters.
pub proof fn lemma_declares(
    res: Json,
    fields: Seq<(Seq<char>, Json)>,
    params: Seq<ParamView>,
    required: Seq<Seq<char>>,
)
    requires
        res is Object,
        members(res).len() == 3,
        field_text(res, "type"@) == Some("object"@),
        json_get(res, "properties"@) matches Some(p) && p is Object && members(p) == object_of(fields),
        json_get(res, "required"@) matches Some(r) && text_array(r, required),
        fields.len() == params.len(),
        forall|i: int| 0 <= i < params.len() ==> (#[trigger] fields[i]).0 == params[i].0
            && parameter_shape(fields[i].1, params[i].1, params[i].2),
        forall|i: int, j: int| 0 <= i < j < params.len() ==> params[i].0 != params[j].0,
    ensures
        declares(res, params, required),
{
    lemma_object_of_distinct(fields);
    let p = json_get(res, "properties"@)->Some_0;
    assert forall|i: int| 0 <= i < params.len() implies (json_get(p, #[trigger] params[i].0) matches Some(o)
        && parameter_shape(o, params[i].1, params[i].2)) by {
        assert(fields[i].0 == params[i].0);
    }
}

} // verus!
