//! JSON values as the library holds them.
//!
//! Objects keep their members ordered strictly by key, as a JSON object map
//! ordered by key does. A floating-point number is held by the bits of its
//! `f64`, so that it passes through unchanged.
use vstd::prelude::*;

use crate::ordmap::{keyed_view, lookup, ordmap_get, ordmap_insert, sorted_entries, sorted_insert};
use crate::text::{chars_eq, chars_of, string_of};

verus! {

#[derive(Debug, Clone, Copy, PartialEq)]
pub enum JsonNumber {
    PosInt(u64),
    NegInt(i64),
    /// The bits of an `f64`.
    Float(u64),
}

#[derive(Debug)]
pub enum Json {
    Null,
    Bool(bool),
    Number(JsonNumber),
    String(String),
    Array(Vec<Json>),
    Object(Vec<(String, Json)>),
}

// ---------------------------------------------------------------------------
// Reading
// ---------------------------------------------------------------------------

/// The member `k` of `j`, when `j` is an object that has one.
pub open spec fn json_get(j: Json, k: Seq<char>) -> Option<Json> {
    match j {
        Json::Object(m) => lookup(keyed_view(m@), k),
        _ => None,
    }
}

/// The text of a string value.
pub open spec fn as_text(j: Option<Json>) -> Option<Seq<char>> {
    match j {
        Some(Json::String(s)) => Some(s@),
        _ => None,
    }
}

/// The text of member `k`, when it is a string.
pub open spec fn field_text(j: Json, k: Seq<char>) -> Option<Seq<char>> {
    as_text(json_get(j, k))
}

/// Member `k` as an unsigned integer, when it is a non-negative integer.
pub open spec fn field_u64(j: Json, k: Seq<char>) -> Option<u64> {
    match json_get(j, k) {
        Some(Json::Number(JsonNumber::PosInt(n))) => Some(n),
        _ => None,
    }
}

/// Member `k` as a boolean, when it is one.
pub open spec fn field_bool(j: Json, k: Seq<char>) -> Option<bool> {
    match json_get(j, k) {
        Some(Json::Bool(b)) => Some(b),
        _ => None,
    }
}

/// The members of an object, by key.
pub open spec fn members(j: Json) -> Seq<(Seq<char>, Json)> {
    match j {
        Json::Object(m) => keyed_view(m@),
        _ => Seq::empty(),
    }
}

/// `a` and `b` are the same JSON value: the same text in every string and
/// key, member for member and item for item.
pub open spec fn same_json(a: Json, b: Json) -> bool
    decreases a, 0nat,
{
    match a {
        Json::Null => b is Null,
        Json::Bool(x) => b == Json::Bool(x),
        Json::Number(x) => b == Json::Number(x),
        Json::String(x) => b matches Json::String(y) && x@ == y@,
        Json::Array(xs) => {
            proof {
                broadcast use vstd::std_specs::vec::axiom_vec_decreases_to_view;

                assert(decreases_to!(a => xs@));
            }
            b matches Json::Array(ys) && xs@.len() == ys@.len() && same_items(xs@, ys@, xs@.len())
        },
        Json::Object(xs) => {
            proof {
                broadcast use vstd::std_specs::vec::axiom_vec_decreases_to_view;

                assert(decreases_to!(a => xs@));
            }
            b matches Json::Object(ys) && xs@.len() == ys@.len() && same_members(
                xs@,
                ys@,
                xs@.len(),
            )
        },
    }
}

/// The first `n` items of `xs` and `ys` are the same values.
pub open spec fn same_items(xs: Seq<Json>, ys: Seq<Json>, n: nat) -> bool
    decreases xs, n,
{
    if n == 0 || n > xs.len() {
        n == 0
    } else {
        same_items(xs, ys, (n - 1) as nat) && same_json(xs[n - 1], ys[n - 1])
    }
}

/// The first `n` members of `xs` and `ys` have the same keys and the same
/// values.
pub open spec fn same_members(xs: Seq<(String, Json)>, ys: Seq<(String, Json)>, n: nat) -> bool
    decreases xs, n,
{
    if n == 0 || n > xs.len() {
        n == 0
    } else {
        proof {
            assert(decreases_to!(xs => xs[n - 1]));
            assert(decreases_to!(xs[n - 1] => xs[n - 1].1));
        }
        same_members(xs, ys, (n - 1) as nat) && xs[n - 1].0@ == ys[n - 1].0@ && same_json(
            xs[n - 1].1,
            ys[n - 1].1,
        )
    }
}

/// Whether the first `n` items are the same depends on those items only.
pub proof fn lemma_same_items_prefix(xs1: Seq<Json>, xs2: Seq<Json>, ys: Seq<Json>, n: nat)
    requires
        n <= xs1.len(),
        n <= xs2.len(),
        forall|k: int| 0 <= k < n ==> xs1[k] == xs2[k],
    ensures
        same_items(xs1, ys, n) == same_items(xs2, ys, n),
    decreases n,
{
    if n > 0 {
        lemma_same_items_prefix(xs1, xs2, ys, (n - 1) as nat);
    }
}

/// Whether the first `n` members are the same depends on those members only.
pub proof fn lemma_same_members_prefix(
    xs1: Seq<(String, Json)>,
    xs2: Seq<(String, Json)>,
    ys: Seq<(String, Json)>,
    n: nat,
)
    requires
        n <= xs1.len(),
        n <= xs2.len(),
        forall|k: int| 0 <= k < n ==> xs1[k] == xs2[k],
    ensures
        same_members(xs1, ys, n) == same_members(xs2, ys, n),
    decreases n,
{
    if n > 0 {
        lemma_same_members_prefix(xs1, xs2, ys, (n - 1) as nat);
    }
}

impl Json {
    /// The member `key` of an object (`Value::get`).
    pub fn get(&self, key: &str) -> (res: Option<&Json>)
        ensures
            match res {
                Some(r) => json_get(*self, key@) == Some(*r),
                None => json_get(*self, key@) is None,
            },
    {
        match self {
            Json::Object(m) => ordmap_get(m, key),
            _ => None,
        }
    }

    /// The text of a string value (`Value::as_str`).
    pub fn as_str(&self) -> (res: Option<&str>)
        ensures
            match res {
                Some(r) => as_text(Some(*self)) == Some(r@),
                None => as_text(Some(*self)) is None,
            },
    {
        match self {
            Json::String(s) => Some(s.as_str()),
            _ => None,
        }
    }

    /// A non-negative integer value (`Value::as_u64`).
    pub fn as_u64(&self) -> (res: Option<u64>)
        ensures
            res == match *self {
                Json::Number(JsonNumber::PosInt(n)) => Some(n),
                _ => None::<u64>,
            },
    {
        match self {
            Json::Number(JsonNumber::PosInt(n)) => Some(*n),
            _ => None,
        }
    }

    /// A boolean value (`Value::as_bool`).
    pub fn as_bool(&self) -> (res: Option<bool>)
        ensures
            res == match *self {
                Json::Bool(b) => Some(b),
                _ => None::<bool>,
            },
    {
        match self {
            Json::Bool(b) => Some(*b),
            _ => None,
        }
    }

    /// A copy of the value, member for member.
    pub fn duplicate(&self) -> (res: Json)
        ensures
            same_json(res, *self),
        decreases self,
    {
        match self {
            Json::Null => Json::Null,
            Json::Bool(b) => Json::Bool(*b),
            Json::Number(n) => Json::Number(*n),
            Json::String(s) => Json::String(s.clone()),
            Json::Array(v) => {
                let mut out: Vec<Json> = Vec::new();
                let mut i: usize = 0;
                while i < v.len()
                    invariant
                        0 <= i <= v.len(),
                        *self == Json::Array(*v),
                        out@.len() == i,
                        same_items(out@, v@, i as nat),
                    decreases v.len() - i,
                {
                    proof {
                        broadcast use vstd::std_specs::vec::axiom_vec_decreases_to_view;

                        assert(decreases_to!(*self => self->Array_0));
                        assert(self->Array_0 == *v);
                        assert(decreases_to!(*v => v@));
                        assert(decreases_to!(v@ => v@[i as int]));
                        assert(decreases_to!(*self => v@[i as int]));
                    }
                    let item = v[i].duplicate();
                    let ghost before = out@;
                    out.push(item);
                    proof {
                        lemma_same_items_prefix(before, out@, v@, i as nat);
                    }
                    i = i + 1;
                }
                Json::Array(out)
            },
            Json::Object(m) => {
                let mut out: Vec<(String, Json)> = Vec::new();
                let mut i: usize = 0;
                while i < m.len()
                    invariant
                        0 <= i <= m.len(),
                        *self == Json::Object(*m),
                        out@.len() == i,
                        same_members(out@, m@, i as nat),
                    decreases m.len() - i,
                {
                    proof {
                        broadcast use vstd::std_specs::vec::axiom_vec_decreases_to_view;

                        assert(decreases_to!(*self => self->Object_0));
                        assert(self->Object_0 == *m);
                        assert(decreases_to!(*m => m@));
                        assert(decreases_to!(m@ => m@[i as int]));
                        assert(decreases_to!(m@[i as int] => m@[i as int].1));
                        assert(decreases_to!(*self => m@[i as int].1));
                    }
                    let key = m[i].0.clone();
                    let value = m[i].1.duplicate();
                    let ghost before = out@;
                    out.push((key, value));
                    proof {
                        lemma_same_members_prefix(before, out@, m@, i as nat);
                    }
                    i = i + 1;
                }
                Json::Object(out)
            },
        }
    }

    /// An empty object.
    pub fn empty_object() -> (res: Json)
        ensures
            res is Object,
            members(res) == Seq::<(Seq<char>, Json)>::empty(),
    {
        let m: Vec<(String, Json)> = Vec::new();
        assert(keyed_view(m@) =~= Seq::<(Seq<char>, Json)>::empty());
        Json::Object(m)
    }

    /// Sets member `key` of an object to `value` (`Map::insert`); a value
    /// that is not an object is left as it is.
    pub fn insert(&mut self, key: String, value: Json)
        ensures
            match *old(self) {
                Json::Object(_) => *final(self) is Object && members(*final(self)) == sorted_insert(
                    members(*old(self)),
                    key@,
                    value,
                ),
                _ => *final(self) == *old(self),
            },
            sorted_entries(members(*old(self))) ==> sorted_entries(members(*final(self))),
    {
        match self {
            Json::Object(m) => {
                ordmap_insert(m, key, value);
            },
            _ => {},
        }
    }
}

/// Member `k` of `j` read as text, when it is a string (`v.get(k).and_then(as_str)`).
pub fn get_text<'a>(j: &'a Json, k: &str) -> (res: Option<&'a str>)
    ensures
        match res {
            Some(r) => field_text(*j, k@) == Some(r@),
            None => field_text(*j, k@) is None,
        },
{
    match j.get(k) {
        Some(v) => v.as_str(),
        None => None,
    }
}

/// Member `k` of `j` read as a non-negative integer.
pub fn get_u64(j: &Json, k: &str) -> (res: Option<u64>)
    ensures
        res == field_u64(*j, k@),
{
    match j.get(k) {
        Some(v) => v.as_u64(),
        None => None,
    }
}

/// Member `k` of `j` read as a boolean.
pub fn get_bool(j: &Json, k: &str) -> (res: Option<bool>)
    ensures
        res == field_bool(*j, k@),
{
    match j.get(k) {
        Some(v) => v.as_bool(),
        None => None,
    }
}

// ---------------------------------------------------------------------------
// Building
// ---------------------------------------------------------------------------

/// An object with exactly the members of `fields`, each set in turn.
pub open spec fn object_of(fields: Seq<(Seq<char>, Json)>) -> Seq<(Seq<char>, Json)>
    decreases fields.len(),
{
    if fields.len() == 0 {
        Seq::empty()
    } else {
        sorted_insert(object_of(fields.drop_last()), fields.last().0, fields.last().1)
    }
}

/// The first `n` items being the same, each of them is.
pub proof fn lemma_same_items_each(xs: Seq<Json>, ys: Seq<Json>, n: nat, i: int)
    requires
        same_items(xs, ys, n),
        0 <= i < n,
    ensures
        same_json(xs[i], ys[i]),
    decreases n,
{
    if i < n - 1 {
        lemma_same_items_each(xs, ys, (n - 1) as nat, i);
    }
}

/// The first `n` members being the same, each of them is.
pub proof fn lemma_same_members_each(xs: Seq<(String, Json)>, ys: Seq<(String, Json)>, n: nat, i: int)
    requires
        same_members(xs, ys, n),
        0 <= i < n,
    ensures
        xs[i].0@ == ys[i].0@,
        same_json(xs[i].1, ys[i].1),
    decreases n,
{
    if i < n - 1 {
        lemma_same_members_each(xs, ys, (n - 1) as nat, i);
    }
}

/// Whether two numbers are the same number, variant and value alike.
fn same_number(x: &JsonNumber, y: &JsonNumber) -> (res: bool)
    ensures
        res == (*x == *y),
{
    match (x, y) {
        (JsonNumber::PosInt(p), JsonNumber::PosInt(q)) => *p == *q,
        (JsonNumber::NegInt(p), JsonNumber::NegInt(q)) => *p == *q,
        (JsonNumber::Float(p), JsonNumber::Float(q)) => *p == *q,
        _ => false,
    }
}

/// Whether `a` and `b` are the same JSON value (`same_json`).
pub fn json_eq(a: &Json, b: &Json) -> (res: bool)
    ensures
        res == same_json(*a, *b),
    decreases a,
{
    match a {
        Json::Null => match b {
            Json::Null => true,
            _ => false,
        },
        Json::Bool(x) => match b {
            Json::Bool(y) => *x == *y,
            _ => false,
        },
        Json::Number(x) => match b {
            Json::Number(y) => same_number(x, y),
            _ => false,
        },
        Json::String(x) => match b {
            Json::String(y) => chars_eq(&chars_of(x.as_str()), &chars_of(y.as_str())),
            _ => false,
        },
        Json::Array(xs) => match b {
            Json::Array(ys) => {
                if xs.len() != ys.len() {
                    return false;
                }
                let mut i: usize = 0;
                while i < xs.len()
                    invariant
                        0 <= i <= xs.len(),
                        xs@.len() == ys@.len(),
                        *a == Json::Array(*xs),
                        *b == Json::Array(*ys),
                        same_items(xs@, ys@, i as nat),
                    decreases xs.len() - i,
                {
                    proof {
                        broadcast use vstd::std_specs::vec::axiom_vec_decreases_to_view;

                        assert(decreases_to!(*a => a->Array_0));
                        assert(a->Array_0 == *xs);
                        assert(decreases_to!(*xs => xs@));
                        assert(decreases_to!(xs@ => xs@[i as int]));
                        assert(decreases_to!(*a => xs@[i as int]));
                    }
                    if !json_eq(&xs[i], &ys[i]) {
                        proof {
                            if same_json(*a, *b) {
                                lemma_same_items_each(xs@, ys@, xs@.len(), i as int);
                            }
                        }
                        return false;
                    }
                    i = i + 1;
                }
                true
            },
            _ => false,
        },
        Json::Object(xs) => match b {
            Json::Object(ys) => {
                if xs.len() != ys.len() {
                    return false;
                }
                let mut i: usize = 0;
                while i < xs.len()
                    invariant
                        0 <= i <= xs.len(),
                        xs@.len() == ys@.len(),
                        *a == Json::Object(*xs),
                        *b == Json::Object(*ys),
                        same_members(xs@, ys@, i as nat),
                    decreases xs.len() - i,
                {
                    proof {
                        broadcast use vstd::std_specs::vec::axiom_vec_decreases_to_view;

                        assert(decreases_to!(*a => a->Object_0));
                        assert(a->Object_0 == *xs);
                        assert(decreases_to!(*xs => xs@));
                        assert(decreases_to!(xs@ => xs@[i as int]));
                        assert(decreases_to!(xs@[i as int] => xs@[i as int].1));
                        assert(decreases_to!(*a => xs@[i as int].1));
                    }
                    if !chars_eq(&chars_of(xs[i].0.as_str()), &chars_of(ys[i].0.as_str())) {
                        proof {
                            if same_json(*a, *b) {
                                lemma_same_members_each(xs@, ys@, xs@.len(), i as int);
                            }
                        }
                        return false;
                    }
                    if !json_eq(&xs[i].1, &ys[i].1) {
                        proof {
                            if same_json(*a, *b) {
                                lemma_same_members_each(xs@, ys@, xs@.len(), i as int);
                            }
                        }
                        return false;
                    }
                    i = i + 1;
                }
                true
            },
            _ => false,
        },
    }
}

} // verus!
