//! Ordered maps from text keys, kept as sequences of entries strictly
//! increasing by key (the iteration order of a `BTreeMap<String, _>`).
use vstd::prelude::*;

use crate::text::{
    chars_eq, chars_less, chars_lt, chars_of, lemma_chars_lt_irreflexive, lemma_chars_lt_total,
    lemma_chars_lt_transitive,
};

verus! {

/// Headers strictly increasing.
pub open spec fn sorted_entries<V>(s: Seq<(Seq<char>, V)>) -> bool {
    forall|i: int, j: int| 0 <= i < j < s.len() ==> chars_lt(#[trigger] s[i].0, #[trigger] s[j].0)
}

/// `s` with `k` mapped to `v`: the entry for `k` replaced if there is one,
/// else a new entry placed before the first larger key.
pub open spec fn sorted_insert<V>(s: Seq<(Seq<char>, V)>, k: Seq<char>, v: V) -> Seq<
    (Seq<char>, V),
>
    decreases s.len(),
{
    if s.len() == 0 {
        seq![(k, v)]
    } else if s[0].0 == k {
        s.update(0, (k, v))
    } else if chars_lt(k, s[0].0) {
        seq![(k, v)] + s
    } else {
        seq![s[0]] + sorted_insert(s.drop_first(), k, v)
    }
}

/// The content recorded for key `k`, if any.
pub open spec fn lookup<V>(s: Seq<(Seq<char>, V)>, k: Seq<char>) -> Option<V>
    decreases s.len(),
{
    if s.len() == 0 {
        None
    } else if s[0].0 == k {
        Some(s[0].1)
    } else {
        lookup(s.drop_first(), k)
    }
}

pub proof fn lemma_sorted_tail<V>(s: Seq<(Seq<char>, V)>)
    requires
        sorted_entries(s),
        s.len() > 0,
    ensures
        sorted_entries(s.drop_first()),
{
    assert forall|i: int, j: int| 0 <= i < j < s.drop_first().len() implies chars_lt(
        #[trigger] s.drop_first()[i].0,
        #[trigger] s.drop_first()[j].0,
    ) by {
        assert(s.drop_first()[i] == s[i + 1]);
        assert(s.drop_first()[j] == s[j + 1]);
    }
}

/// Every key of the insertion result is either `k` or a key of `s`.
pub proof fn lemma_sorted_insert_keys<V>(s: Seq<(Seq<char>, V)>, k: Seq<char>, v: V)
    ensures
        forall|i: int|
            0 <= i < sorted_insert(s, k, v).len() ==> (#[trigger] sorted_insert(s, k, v)[i].0 == k
                || exists|j: int| 0 <= j < s.len() && s[j].0 == sorted_insert(s, k, v)[i].0),
        sorted_insert(s, k, v).len() > 0,
    decreases s.len(),
{
    let r = sorted_insert(s, k, v);
    if s.len() == 0 {
    } else if s[0].0 == k {
        assert forall|i: int| 0 <= i < r.len() implies (#[trigger] r[i].0 == k || exists|j: int|
            0 <= j < s.len() && s[j].0 == r[i].0) by {
            if i > 0 {
                assert(s[i].0 == r[i].0);
            }
        }
    } else if chars_lt(k, s[0].0) {
        assert forall|i: int| 0 <= i < r.len() implies (#[trigger] r[i].0 == k || exists|j: int|
            0 <= j < s.len() && s[j].0 == r[i].0) by {
            if i > 0 {
                assert(s[i - 1].0 == r[i].0);
            }
        }
    } else {
        let t = s.drop_first();
        lemma_sorted_insert_keys(t, k, v);
        let rt = sorted_insert(t, k, v);
        assert forall|i: int| 0 <= i < r.len() implies (#[trigger] r[i].0 == k || exists|j: int|
            0 <= j < s.len() && s[j].0 == r[i].0) by {
            if i == 0 {
                assert(s[0].0 == r[0].0);
            } else {
                assert(r[i] == rt[i - 1]);
                if rt[i - 1].0 != k {
                    let j = choose|j: int| 0 <= j < t.len() && t[j].0 == rt[i - 1].0;
                    assert(s[j + 1].0 == r[i].0);
                }
            }
        }
    }
}

/// Insertion keeps the keys strictly increasing.
pub proof fn lemma_sorted_insert_sorted<V>(s: Seq<(Seq<char>, V)>, k: Seq<char>, v: V)
    requires
        sorted_entries(s),
    ensures
        sorted_entries(sorted_insert(s, k, v)),
    decreases s.len(),
{
    let r = sorted_insert(s, k, v);
    if s.len() == 0 {
    } else if s[0].0 == k {
        assert forall|i: int, j: int| 0 <= i < j < r.len() implies chars_lt(
            #[trigger] r[i].0,
            #[trigger] r[j].0,
        ) by {
            assert(r[i].0 == s[i].0);
            assert(r[j].0 == s[j].0);
        }
    } else if chars_lt(k, s[0].0) {
        assert forall|i: int, j: int| 0 <= i < j < r.len() implies chars_lt(
            #[trigger] r[i].0,
            #[trigger] r[j].0,
        ) by {
            if i == 0 {
                if j > 1 {
                    lemma_chars_lt_transitive(k, s[0].0, s[j - 1].0);
                }
            } else {
                assert(r[i] == s[i - 1]);
                assert(r[j] == s[j - 1]);
            }
        }
    } else {
        let t = s.drop_first();
        lemma_sorted_tail(s);
        lemma_sorted_insert_sorted(t, k, v);
        lemma_sorted_insert_keys(t, k, v);
        lemma_chars_lt_total(k, s[0].0);
        let rt = sorted_insert(t, k, v);
        assert forall|i: int, j: int| 0 <= i < j < r.len() implies chars_lt(
            #[trigger] r[i].0,
            #[trigger] r[j].0,
        ) by {
            if i == 0 {
                assert(r[0] == s[0]);
                assert(r[j] == rt[j - 1]);
                if rt[j - 1].0 != k {
                    let m = choose|m: int| 0 <= m < t.len() && t[m].0 == rt[j - 1].0;
                    assert(t[m] == s[m + 1]);
                }
            } else {
                assert(r[i] == rt[i - 1]);
                assert(r[j] == rt[j - 1]);
            }
        }
    }
}

/// Inserting a key that is not there adds one entry; a key that is there
/// keeps the number of entries.
pub proof fn lemma_sorted_insert_len<V>(s: Seq<(Seq<char>, V)>, k: Seq<char>, v: V)
    ensures
        lookup(s, k) is None ==> sorted_insert(s, k, v).len() == s.len() + 1,
    decreases s.len(),
{
    if s.len() > 0 && s[0].0 != k && !chars_lt(k, s[0].0) {
        lemma_sorted_insert_len(s.drop_first(), k, v);
    }
}

/// What a lookup finds after an insertion.
pub proof fn lemma_lookup_insert<V>(
    s: Seq<(Seq<char>, V)>,
    k: Seq<char>,
    v: V,
    q: Seq<char>,
)
    ensures
        lookup(sorted_insert(s, k, v), q) == if q == k {
            Some(v)
        } else {
            lookup(s, q)
        },
    decreases s.len(),
{
    let r = sorted_insert(s, k, v);
    if s.len() == 0 {
        assert(r.drop_first().len() == 0);
    } else if s[0].0 == k {
        assert(r.drop_first() =~= s.drop_first());
    } else if chars_lt(k, s[0].0) {
        assert(r.drop_first() =~= s);
    } else {
        lemma_sorted_insert_lookup_tail(s, k, v);
        lemma_lookup_insert(s.drop_first(), k, v, q);
    }
}

pub proof fn lemma_sorted_insert_lookup_tail<V>(s: Seq<(Seq<char>, V)>, k: Seq<char>, v: V)
    requires
        s.len() > 0,
        s[0].0 != k,
        !chars_lt(k, s[0].0),
    ensures
        sorted_insert(s, k, v).drop_first() == sorted_insert(s.drop_first(), k, v),
        sorted_insert(s, k, v)[0] == s[0],
{
    assert((seq![s[0]] + sorted_insert(s.drop_first(), k, v)).drop_first() =~= sorted_insert(
        s.drop_first(),
        k,
        v,
    ));
}

/// A key above every key present is recorded as a new last entry.
pub proof fn lemma_sorted_insert_last<V>(s: Seq<(Seq<char>, V)>, k: Seq<char>, v: V)
    requires
        forall|i: int| 0 <= i < s.len() ==> chars_lt(#[trigger] s[i].0, k),
    ensures
        sorted_insert(s, k, v) == s.push((k, v)),
    decreases s.len(),
{
    if s.len() == 0 {
        assert(seq![(k, v)] =~= s.push((k, v)));
    } else {
        assert(chars_lt(s[0].0, k));
        lemma_chars_lt_irreflexive(k);
        lemma_chars_lt_total(s[0].0, k);
        assert forall|i: int| 0 <= i < s.drop_first().len() implies chars_lt(
            #[trigger] s.drop_first()[i].0,
            k,
        ) by {
            assert(s.drop_first()[i] == s[i + 1]);
        }
        lemma_sorted_insert_last(s.drop_first(), k, v);
        assert(seq![s[0]] + s.drop_first().push((k, v)) =~= s.push((k, v)));
    }
}

/// The entries of a map held with `String` keys.
pub open spec fn keyed_view<V>(s: Seq<(String, V)>) -> Seq<(Seq<char>, V)> {
    s.map_values(|e: (String, V)| (e.0@, e.1))
}

/// Maps `k` to `v` in the ordered entry list `entries`.
pub fn ordmap_insert<V>(entries: &mut Vec<(String, V)>, k: String, v: V)
    ensures
        keyed_view(final(entries)@) == sorted_insert(keyed_view(old(entries)@), k@, v),
        sorted_entries(keyed_view(old(entries)@)) ==> sorted_entries(keyed_view(final(entries)@)),
{
    let ghost s0 = keyed_view(entries@);
    let ghost kv = k@;
    let key = chars_of(k.as_str());
    proof {
        if sorted_entries(s0) {
            lemma_sorted_insert_sorted(s0, kv, v);
        }
        assert(s0.skip(0) =~= s0);
        assert(s0.take(0) =~= Seq::<(Seq<char>, V)>::empty());
    }
    let mut i: usize = 0;
    while i < entries.len()
        invariant
            0 <= i <= entries.len(),
            entries@ == old(entries)@,
            s0 == keyed_view(entries@),
            key@ == kv,
            k@ == kv,
            sorted_entries(s0) ==> sorted_entries(sorted_insert(s0, kv, v)),
            sorted_insert(s0, kv, v) == s0.take(i as int) + sorted_insert(s0.skip(i as int), kv, v),
        decreases entries.len() - i,
    {
        let cur = chars_of(entries[i].0.as_str());
        assert(s0[i as int].0 == cur@);
        if chars_eq(&cur, &key) {
            proof {
                let t = s0.skip(i as int);
                assert(t[0].0 == kv);
                assert(s0.take(i as int) + t.update(0, (kv, v)) =~= s0.update(i as int, (kv, v)));
            }
            let ghost old_entries = entries@;
            entries.set(i, (k, v));
            assert(keyed_view(entries@) =~= keyed_view(old_entries).update(i as int, (kv, v)));
            return;
        }
        if chars_less(&key, &cur) {
            proof {
                let t = s0.skip(i as int);
                assert(t[0].0 == s0[i as int].0);
                assert(s0.take(i as int) + (seq![(kv, v)] + t) =~= s0.insert(i as int, (kv, v)));
            }
            let ghost old_entries = entries@;
            entries.insert(i, (k, v));
            assert(keyed_view(entries@) =~= keyed_view(old_entries).insert(i as int, (kv, v)));
            return;
        }
        proof {
            let t = s0.skip(i as int);
            assert(t[0] == s0[i as int]);
            lemma_sorted_insert_lookup_tail(t, kv, v);
            assert(t.drop_first() =~= s0.skip(i + 1));
            assert(sorted_insert(t, kv, v) =~= seq![t[0]] + sorted_insert(t.drop_first(), kv, v));
            assert(s0.take(i + 1) =~= s0.take(i as int).push(s0[i as int]));
            assert(s0.take(i as int) + (seq![s0[i as int]] + sorted_insert(s0.skip(i + 1), kv, v))
                =~= s0.take(i + 1) + sorted_insert(s0.skip(i + 1), kv, v));
        }
        i = i + 1;
    }
    proof {
        let n = entries.len() as int;
        assert(s0.skip(n) =~= Seq::<(Seq<char>, V)>::empty());
        assert(s0.take(n) =~= s0);
    }
    let ghost old_entries = entries@;
    entries.push((k, v));
    assert(keyed_view(entries@) =~= keyed_view(old_entries).push((kv, v)));
}

/// The position of the entry for `k`, if any.
pub fn ordmap_find<V>(entries: &Vec<(String, V)>, k: &str) -> (res: Option<usize>)
    ensures
        match res {
            Some(i) => i < entries@.len() && keyed_view(entries@)[i as int].0 == k@ && lookup(
                keyed_view(entries@),
                k@,
            ) == Some(entries@[i as int].1),
            None => lookup(keyed_view(entries@), k@) is None,
        },
{
    let ghost sv = keyed_view(entries@);
    let wanted = chars_of(k);
    let mut i: usize = 0;
    assert(sv.skip(0) =~= sv);
    while i < entries.len()
        invariant
            0 <= i <= entries.len(),
            sv == keyed_view(entries@),
            wanted@ == k@,
            lookup(sv, k@) == lookup(sv.skip(i as int), k@),
        decreases entries.len() - i,
    {
        let key = chars_of(entries[i].0.as_str());
        assert(sv.skip(i as int)[0] == sv[i as int]);
        if chars_eq(&key, &wanted) {
            return Some(i);
        }
        assert(sv.skip(i as int).drop_first() =~= sv.skip(i + 1));
        i = i + 1;
    }
    assert(sv.skip(i as int).len() == 0);
    None
}

/// The value recorded for `k` in `entries`, if any.
pub fn ordmap_get<'a, V>(entries: &'a Vec<(String, V)>, k: &str) -> (res: Option<&'a V>)
    ensures
        match res {
            Some(r) => lookup(keyed_view(entries@), k@) == Some(*r),
            None => lookup(keyed_view(entries@), k@) is None,
        },
{
    let ghost sv = keyed_view(entries@);
    let wanted = chars_of(k);
    let mut i: usize = 0;
    assert(sv.skip(0) =~= sv);
    while i < entries.len()
        invariant
            0 <= i <= entries.len(),
            sv == keyed_view(entries@),
            wanted@ == k@,
            lookup(sv, k@) == lookup(sv.skip(i as int), k@),
        decreases entries.len() - i,
    {
        let key = chars_of(entries[i].0.as_str());
        assert(sv.skip(i as int)[0] == sv[i as int]);
        if chars_eq(&key, &wanted) {
            return Some(&entries[i].1);
        }
        assert(sv.skip(i as int).drop_first() =~= sv.skip(i + 1));
        i = i + 1;
    }
    assert(sv.skip(i as int).len() == 0);
    None
}

} // verus!
