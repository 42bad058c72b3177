//! Reading one streamed model answer: the events it produces, the text and
//! thinking it accumulates, and the tool calls it makes.
use vstd::prelude::*;

use crate::client::{owned, OllamaFunction, OllamaMessage, OllamaToolCall};
use crate::event::{
    Event, MessageId, TextMessageContentEvent, ThinkingTextMessageContentEvent,
    ThinkingTextMessageEndEvent, ThinkingTextMessageStartEvent,
};
use crate::json::{members, Json};
use crate::text::{append_chars, chars_of, string_of};
use std::collections::BTreeMap;
use vstd::std_specs::cmp::OrdSpec;
use vstd::std_specs::iter::IteratorSpec;

verus! {

broadcast use {vstd::std_specs::btree::group_btree_axioms, vstd::laws_cmp::group_laws_cmp};

/// What a streamed piece makes the session report.
#[derive(Debug, Clone, PartialEq)]
pub enum StreamEvent {
    ThinkingStart,
    ThinkingContent(String),
    ThinkingEnd,
    TextContent(String),
}

/// A stream event with its text taken as characters.
pub enum StreamEventView {
    ThinkingStart,
    ThinkingContent(Seq<char>),
    ThinkingEnd,
    TextContent(Seq<char>),
}

pub open spec fn event_view(e: StreamEvent) -> StreamEventView {
    match e {
        StreamEvent::ThinkingStart => StreamEventView::ThinkingStart,
        StreamEvent::ThinkingContent(s) => StreamEventView::ThinkingContent(s@),
        StreamEvent::ThinkingEnd => StreamEventView::ThinkingEnd,
        StreamEvent::TextContent(s) => StreamEventView::TextContent(s@),
    }
}

pub open spec fn events_view(es: Seq<StreamEvent>) -> Seq<StreamEventView> {
    es.map_values(|e: StreamEvent| event_view(e))
}

/// A tool call streamed in pieces: its name once given, and its argument
/// text so far.
pub type PartialCall = (Option<Seq<char>>, Seq<char>);

/// The piece of a call's arguments that a delta carries: a string is taken
/// as it is, anything else as its JSON text.
pub open spec fn delta_args(c: OllamaToolCall) -> Seq<char> {
    match c.function.arguments {
        Json::String(s) => s@,
        _ => c.function.arguments_json@,
    }
}

/// A partial call after a delta: a non-empty name replaces the name, the
/// argument text is appended.
pub open spec fn merge_delta(p: (Option<Seq<char>>, Seq<char>), name: Seq<char>, args: Seq<char>) -> (
    Option<Seq<char>>,
    Seq<char>,
) {
    (if name.len() > 0 {
        Some(name)
    } else {
        p.0
    }, p.1 + args)
}

/// The partial calls, by index, after a delta for `idx`.
pub open spec fn upsert(m: Map<usize, PartialCall>, idx: usize, name: Seq<char>, args: Seq<char>) -> Map<
    usize,
    PartialCall,
> {
    let prev = if m.contains_key(idx) {
        m[idx]
    } else {
        (None, Seq::empty())
    };
    m.insert(idx, merge_delta(prev, name, args))
}

/// What has been read of an answer.
pub struct RoundView {
    pub content: Seq<char>,
    pub thinking: Seq<char>,
    pub thinking_active: bool,
    pub partial: Map<usize, PartialCall>,
    pub complete: Seq<OllamaToolCall>,
}

pub struct RoundAccumulator {
    content: Vec<char>,
    thinking: Vec<char>,
    thinking_active: bool,
    partial: BTreeMap<usize, (Option<String>, Vec<char>)>,
    complete: Vec<OllamaToolCall>,
}

pub open spec fn opt_chars(o: Option<String>) -> Option<Seq<char>> {
    match o {
        Some(s) => Some(s@),
        None => None,
    }
}

pub open spec fn partial_view(m: Map<usize, (Option<String>, Vec<char>)>) -> Map<usize, PartialCall> {
    m.map_values(|p: (Option<String>, Vec<char>)| (opt_chars(p.0), p.1@))
}

impl View for RoundAccumulator {
    type V = RoundView;

    closed spec fn view(&self) -> RoundView {
        RoundView {
            content: self.content@,
            thinking: self.thinking@,
            thinking_active: self.thinking_active,
            partial: partial_view(self.partial@),
            complete: self.complete@,
        }
    }
}

/// The calls of a delta, in order, applied to the partial and complete
/// calls: a call with an index adds to the partial call of that index, one
/// without is complete as it stands.
pub open spec fn apply_calls(
    partial: Map<usize, PartialCall>,
    complete: Seq<OllamaToolCall>,
    calls: Seq<OllamaToolCall>,
) -> (Map<usize, PartialCall>, Seq<OllamaToolCall>)
    decreases calls.len(),
{
    if calls.len() == 0 {
        (partial, complete)
    } else {
        let (p, c) = apply_calls(partial, complete, calls.drop_last());
        let call = calls.last();
        match call.index {
            Some(idx) => (upsert(p, idx, call.function.name@, delta_args(call)), c),
            None => (p, c.push(call)),
        }
    }
}

/// The state after one streamed message, and the events it produces.
pub open spec fn read_message(r: RoundView, m: OllamaMessage) -> (RoundView, Seq<StreamEventView>) {
    let t = match m.thinking {
        Some(t) => t@,
        None => Seq::empty(),
    };
    let (active1, thinking1, ev1) = if t.len() > 0 {
        let start: Seq<StreamEventView> = if r.thinking_active {
            Seq::empty()
        } else {
            seq![StreamEventView::ThinkingStart]
        };
        (true, r.thinking + t, start.push(StreamEventView::ThinkingContent(t)))
    } else {
        (r.thinking_active, r.thinking, Seq::empty())
    };
    let c = m.content@;
    let (active2, content2, ev2) = if c.len() > 0 {
        let end: Seq<StreamEventView> = if active1 {
            seq![StreamEventView::ThinkingEnd]
        } else {
            Seq::empty()
        };
        (false, r.content + c, ev1 + end.push(StreamEventView::TextContent(c)))
    } else {
        (active1, r.content, ev1)
    };
    let (p, cs) = match m.tool_calls {
        Some(calls) => apply_calls(r.partial, r.complete, calls@),
        None => (r.partial, r.complete),
    };
    (
        RoundView {
            content: content2,
            thinking: thinking1,
            thinking_active: active2,
            partial: p,
            complete: cs,
        },
        ev2,
    )
}

/// The argument piece that a call delta carries.
fn call_delta_args(c: &OllamaToolCall) -> (res: Vec<char>)
    ensures
        res@ == delta_args(*c),
{
    match &c.function.arguments {
        Json::String(s) => chars_of(s.as_str()),
        _ => chars_of(c.function.arguments_json.as_str()),
    }
}

/// Applies a delta for call `idx` to the partial calls.
fn upsert_partial(
    partial: &mut BTreeMap<usize, (Option<String>, Vec<char>)>,
    idx: usize,
    name: &Vec<char>,
    args: &Vec<char>,
)
    ensures
        partial_view(final(partial)@) == upsert(partial_view(old(partial)@), idx, name@, args@),
{
    let (old_name, mut new_args) = match partial.get(&idx) {
        Some(e) => {
            let n = match &e.0 {
                Some(n) => Some(string_of(&chars_of(n.as_str()))),
                None => None,
            };
            let a = crate::text::slice_chars(&e.1, 0, e.1.len());
            assert(e.1@.subrange(0, e.1@.len() as int) =~= e.1@);
            (n, a)
        },
        None => (None, Vec::new()),
    };
    let new_name = if name.len() > 0 {
        Some(string_of(name))
    } else {
        old_name
    };
    append_chars(&mut new_args, args);
    let ghost m0 = partial_view(partial@);
    partial.insert(idx, (new_name, new_args));
    assert(partial_view(partial@) =~= upsert(m0, idx, name@, args@));
}

/// Keys that a `BTreeMap` yields in increasing order are strictly
/// increasing.
proof fn lemma_increasing_keys(keys: Seq<usize>)
    requires
        vstd::std_specs::btree::increasing_seq(keys),
    ensures
        forall|i: int, j: int| 0 <= i < j < keys.len() ==> keys[i] < keys[j],
{
    assert forall|i: int, j: int| 0 <= i < j < keys.len() implies keys[i] < keys[j] by {
        assert(keys[i].cmp_spec(&keys[j]) is Less);
    }
}

/// What a finished answer amounts to.
pub struct RoundOutput {
    /// Whether the thinking output was still open, so that its end must be
    /// reported.
    pub end_thinking: bool,
    pub content: String,
    pub thinking: String,
    /// Calls that arrived whole, in order.
    pub complete: Vec<OllamaToolCall>,
    /// Calls streamed in pieces, by index: the index, the name (empty when
    /// none came) and the argument text still to be parsed.
    pub pending: Vec<(usize, String, String)>,
}

pub open spec fn name_or_empty(o: Option<Seq<char>>) -> Seq<char> {
    match o {
        Some(n) => n,
        None => Seq::empty(),
    }
}

pub open spec fn pending_view(s: Seq<(usize, String, String)>) -> Seq<(usize, Seq<char>, Seq<char>)> {
    s.map_values(|p: (usize, String, String)| (p.0, p.1@, p.2@))
}

/// The partial calls listed by increasing index: each with its name (empty
/// when none came) and its argument text, each index once.
pub open spec fn listed_by_index(
    p: Seq<(usize, Seq<char>, Seq<char>)>,
    m: Map<usize, PartialCall>,
) -> bool {
    &&& forall|i: int, j: int| 0 <= i < j < p.len() ==> (#[trigger] p[i]).0 < (#[trigger] p[j]).0
    &&& forall|i: int|
        0 <= i < p.len() ==> m.contains_key((#[trigger] p[i]).0) && p[i].1 == name_or_empty(
            m[p[i].0].0,
        ) && p[i].2 == m[p[i].0].1
    &&& forall|k: usize| #[trigger] m.contains_key(k) ==> exists|i: int| 0 <= i < p.len() && p[i].0 == k
}

impl RoundAccumulator {
    pub fn new() -> (res: Self)
        ensures
            res@ == (RoundView {
                content: Seq::empty(),
                thinking: Seq::empty(),
                thinking_active: false,
                partial: Map::empty(),
                complete: Seq::empty(),
            }),
    {
        let r = RoundAccumulator {
            content: Vec::new(),
            thinking: Vec::new(),
            thinking_active: false,
            partial: BTreeMap::new(),
            complete: Vec::new(),
        };
        assert(partial_view(r.partial@) =~= Map::<usize, PartialCall>::empty());
        r
    }

    /// Reads one streamed message and returns the events it produces:
    /// thinking opens (once) and is reported piece by piece; text closes an
    /// open thinking output and is reported piece by piece; tool calls are
    /// gathered.
    pub fn read(&mut self, m: OllamaMessage) -> (events: Vec<StreamEvent>)
        ensures
            (final(self)@, events_view(events@)) == read_message(old(self)@, m),
    {
        let ghost r0 = self@;
        let ghost m0 = m;
        let mut events: Vec<StreamEvent> = Vec::new();
        let t = match &m.thinking {
            Some(t) => chars_of(t.as_str()),
            None => Vec::new(),
        };
        if t.len() > 0 {
            if !self.thinking_active {
                events.push(StreamEvent::ThinkingStart);
                self.thinking_active = true;
            }
            append_chars(&mut self.thinking, &t);
            events.push(StreamEvent::ThinkingContent(string_of(&t)));
        }
        let ghost ev1 = events_view(events@);
        let c = chars_of(m.content.as_str());
        if c.len() > 0 {
            if self.thinking_active {
                events.push(StreamEvent::ThinkingEnd);
                self.thinking_active = false;
            }
            append_chars(&mut self.content, &c);
            events.push(StreamEvent::TextContent(string_of(&c)));
        }
        let ghost evs = events@;
        let ghost pre = self@;
        proof {
            let (rv, ev) = read_message(r0, m0);
            assert(events_view(evs) =~= ev);
            assert(pre.content == rv.content);
            assert(pre.thinking == rv.thinking);
            assert(pre.thinking_active == rv.thinking_active);
            assert(pre.partial == r0.partial);
            assert(pre.complete == r0.complete);
        }
        match m.tool_calls {
            Some(calls) => {
                let ghost all = calls@;
                let n = calls.len();
                let mut rest = calls;
                let mut k: usize = 0;
                assert(all.take(0) =~= Seq::<OllamaToolCall>::empty());
                assert(all.skip(0) =~= all);
                while rest.len() > 0
                    invariant
                        k + rest@.len() == all.len(),
                        all.len() == n,
                        self@.content == pre.content,
                        self@.thinking == pre.thinking,
                        self@.thinking_active == pre.thinking_active,
                        rest@ == all.skip(k as int),
                        (partial_view(self.partial@), self.complete@) == apply_calls(
                            r0.partial,
                            r0.complete,
                            all.take(k as int),
                        ),
                    decreases rest.len(),
                {
                    let call = rest.remove(0);
                    proof {
                        assert(call == all[k as int]);
                        assert(all.take(k + 1).drop_last() =~= all.take(k as int));
                        assert(all.take(k + 1).last() == call);
                        assert(rest@ =~= all.skip(k + 1));
                    }
                    match call.index {
                        Some(idx) => {
                            let args = call_delta_args(&call);
                            let nm = chars_of(call.function.name.as_str());
                            upsert_partial(&mut self.partial, idx, &nm, &args);
                        },
                        None => {
                            self.complete.push(call);
                        },
                    }
                    k = k + 1;
                }
                assert(all.take(all.len() as int) =~= all);
            },
            None => {},
        }
        events
    }

    /// Ends the answer: whether an open thinking output must be closed, the
    /// text and thinking gathered, and the calls.
    pub fn close(self) -> (res: RoundOutput)
        ensures
            res.end_thinking == self@.thinking_active,
            res.content@ == self@.content,
            res.thinking@ == self@.thinking,
            res.complete@ == self@.complete,
            listed_by_index(pending_view(res.pending@), self@.partial),
    {
        let ghost pv = partial_view(self.partial@);
        let mut pending: Vec<(usize, String, String)> = Vec::new();
        let iter = self.partial.iter();
        let ghost entries = iter.remaining();
        let ghost keys = entries.map_values(|kv: (&usize, &(Option<String>, Vec<char>))| *kv.0);
        proof {
            lemma_increasing_keys(keys);
            assert forall|i: int| 0 <= i < entries.len() implies self.partial@.contains_key(
                *(#[trigger] entries[i]).0,
            ) && self.partial@[*entries[i].0] == *entries[i].1 by {
                assert(self.partial@.contains_key(*entries[i].0));
            }
        }
        for kv in it: iter
            invariant
                pv == partial_view(self.partial@),
                entries == it.seq(),
                forall|i: int| 0 <= i < entries.len() ==> self.partial@.contains_key(
                    *(#[trigger] entries[i]).0,
                ) && self.partial@[*entries[i].0] == *entries[i].1,
                keys == entries.map_values(|kv: (&usize, &(Option<String>, Vec<char>))| *kv.0),
                pending@.len() == it.index(),
                forall|i: int| 0 <= i < pending@.len() ==> {
                    &&& (#[trigger] pending@[i]).0 == *entries[i].0
                    &&& self.partial@.contains_key(*entries[i].0)
                    &&& pending@[i].1@ == name_or_empty(pv[pending@[i].0].0)
                    &&& pending@[i].2@ == pv[pending@[i].0].1
                },
        {
            let (k, e) = kv;
            let name = match &e.0 {
                Some(n) => string_of(&chars_of(n.as_str())),
                None => String::new(),
            };
            let args = string_of(&e.1);
            let ghost before = pending@;
            proof {
                assert(kv == entries[pending@.len() as int]);
                assert(self.partial@.contains_key(*k) && self.partial@[*k] == *e);
            }
            pending.push((*k, name, args));
            proof {
                assert forall|i: int| 0 <= i < pending@.len() implies {
                    &&& (#[trigger] pending@[i]).0 == *entries[i].0
                    &&& self.partial@.contains_key(*entries[i].0)
                    &&& pending@[i].1@ == name_or_empty(pv[pending@[i].0].0)
                    &&& pending@[i].2@ == pv[pending@[i].0].1
                } by {
                    if i < before.len() {
                        assert(pending@[i] == before[i]);
                    }
                }
            }
        }
        proof {
            let pw = pending_view(pending@);
            assert forall|i: int, j: int| 0 <= i < j < pw.len() implies (#[trigger] pw[i]).0 < (
            #[trigger] pw[j]).0 by {
                assert(pw[i].0 == pending@[i].0);
                assert(pw[j].0 == pending@[j].0);
                assert(keys[i] == *entries[i].0);
                assert(keys[j] == *entries[j].0);
            }
            assert forall|i: int| 0 <= i < pw.len() implies pv.contains_key((#[trigger] pw[i]).0)
                && pw[i].1 == name_or_empty(pv[pw[i].0].0) && pw[i].2 == pv[pw[i].0].1 by {
                assert(pw[i] == (pending@[i].0, pending@[i].1@, pending@[i].2@));
            }
            assert forall|k: usize| #[trigger] pv.contains_key(k) implies exists|i: int|
                0 <= i < pw.len() && pw[i].0 == k by {
                assert(self.partial@.contains_key(k));
                assert(entries.contains((&k, &self.partial@[k])));
                let i = choose|i: int| 0 <= i < entries.len() && entries[i] == (&k, &self.partial@[k]);
                assert(pw[i].0 == pending@[i].0);
            }
        }
        RoundOutput {
            end_thinking: self.thinking_active,
            content: string_of(&self.content),
            thinking: string_of(&self.thinking),
            complete: self.complete,
            pending,
        }
    }
}

/// The event that reports one piece of a streamed answer; text is reported
/// under the answer's message id.
pub fn event_of(e: StreamEvent, message_id: MessageId) -> (res: Event)
    ensures
        match e {
            StreamEvent::ThinkingStart => res is ThinkingTextMessageStart,
            StreamEvent::ThinkingContent(d) => res matches Event::ThinkingTextMessageContent(c)
                && c.delta == d,
            StreamEvent::ThinkingEnd => res is ThinkingTextMessageEnd,
            StreamEvent::TextContent(d) => res matches Event::TextMessageContent(c) && c.delta == d
                && c.message_id == message_id,
        },
{
    match e {
        StreamEvent::ThinkingStart => Event::ThinkingTextMessageStart(ThinkingTextMessageStartEvent),
        StreamEvent::ThinkingContent(delta) => Event::ThinkingTextMessageContent(
            ThinkingTextMessageContentEvent { delta },
        ),
        StreamEvent::ThinkingEnd => Event::ThinkingTextMessageEnd(ThinkingTextMessageEndEvent),
        StreamEvent::TextContent(delta) => Event::TextMessageContent(
            TextMessageContentEvent { message_id, delta },
        ),
    }
}

/// A call streamed in pieces, finished: its index and name, and its
/// arguments read from the gathered text (with their serialization), or
/// `None` when that text is not JSON.
pub type ParsedCall = (usize, String, Option<(Json, String)>);

/// The call made from a finished streamed call: arguments that could not
/// be read become an empty object.
pub open spec fn finished_call(c: OllamaToolCall, p: ParsedCall) -> bool {
    &&& c.index == Some(p.0)
    &&& c.function.name == p.1
    &&& match p.2 {
        Some((a, j)) => c.function.arguments == a && c.function.arguments_json == j,
        None => c.function.arguments is Object && members(c.function.arguments).len() == 0
            && c.function.arguments_json@ == "{}"@,
    }
}

/// The calls of a round: those that arrived whole, in order, then those
/// streamed in pieces, in order of their index.
pub fn finalize_calls(complete: Vec<OllamaToolCall>, pending: Vec<ParsedCall>) -> (res: Vec<OllamaToolCall>)
    ensures
        res@.len() == complete@.len() + pending@.len(),
        res@.take(complete@.len() as int) == complete@,
        forall|k: int|
            0 <= k < pending@.len() ==> finished_call(#[trigger] res@[complete@.len() + k], pending@[k]),
{
    let ghost c0 = complete@;
    let ghost all = pending@;
    let n = pending.len();
    let mut out = complete;
    let mut rest = pending;
    let mut k: usize = 0;
    assert(all.skip(0) =~= all);
    while rest.len() > 0
        invariant
            k + rest@.len() == all.len(),
            all.len() == n,
            rest@ == all.skip(k as int),
            out@.len() == c0.len() + k,
            out@.take(c0.len() as int) == c0,
            forall|j: int| 0 <= j < k ==> finished_call(#[trigger] out@[c0.len() + j], all[j]),
        decreases rest.len(),
    {
        let (index, name, parsed) = rest.remove(0);
        assert(rest@ =~= all.skip(k + 1));
        let ghost p = (index, name, parsed);
        assert(p == all[k as int]);
        let (arguments, arguments_json) = match parsed {
            Some((a, j)) => (a, j),
            None => (Json::empty_object(), owned("{}")),
        };
        let ghost before = out@;
        out.push(OllamaToolCall { index: Some(index), function: OllamaFunction { name, arguments, arguments_json } });
        assert(out@.take(c0.len() as int) =~= before.take(c0.len() as int));
        assert forall|j: int| 0 <= j < k + 1 implies finished_call(#[trigger] out@[c0.len() + j], all[j]) by {
            if j < k {
                assert(out@[c0.len() + j] == before[c0.len() + j]);
            }
        }
        k = k + 1;
    }
    out
}

/// The calls that came without an index, in order.
pub open spec fn unindexed(cs: Seq<OllamaToolCall>) -> Seq<OllamaToolCall>
    decreases cs.len(),
{
    if cs.len() == 0 {
        Seq::empty()
    } else if cs.last().index is None {
        unindexed(cs.drop_last()).push(cs.last())
    } else {
        unindexed(cs.drop_last())
    }
}

/// Whether some call had index `j`.
pub open spec fn has_index(cs: Seq<OllamaToolCall>, j: usize) -> bool {
    exists|i: int| 0 <= i < cs.len() && cs[i].index == Some(j)
}

/// The last non-empty name among the calls with index `j`.
pub open spec fn merged_name(cs: Seq<OllamaToolCall>, j: usize) -> Option<Seq<char>>
    decreases cs.len(),
{
    if cs.len() == 0 {
        None
    } else if cs.last().index == Some(j) && cs.last().function.name@.len() > 0 {
        Some(cs.last().function.name@)
    } else {
        merged_name(cs.drop_last(), j)
    }
}

/// The argument pieces of the calls with index `j`, appended in order.
pub open spec fn merged_args(cs: Seq<OllamaToolCall>, j: usize) -> Seq<char>
    decreases cs.len(),
{
    if cs.len() == 0 {
        Seq::empty()
    } else if cs.last().index == Some(j) {
        merged_args(cs.drop_last(), j) + delta_args(cs.last())
    } else {
        merged_args(cs.drop_last(), j)
    }
}

/// Without a call for index `j`, nothing is gathered for it.
proof fn lemma_no_index(cs: Seq<OllamaToolCall>, j: usize)
    requires
        !has_index(cs, j),
    ensures
        merged_name(cs, j) is None,
        merged_args(cs, j) == Seq::<char>::empty(),
    decreases cs.len(),
{
    if cs.len() > 0 {
        assert(!has_index(cs.drop_last(), j)) by {
            if has_index(cs.drop_last(), j) {
                let i = choose|i: int| 0 <= i < cs.drop_last().len() && cs.drop_last()[i].index == Some(j);
                assert(cs[i] == cs.drop_last()[i]);
            }
        }
        assert(cs.last().index != Some(j)) by {
            if cs.last().index == Some(j) {
                assert(cs[cs.len() - 1].index == Some(j));
            }
        }
        lemma_no_index(cs.drop_last(), j);
    }
}

/// The calls of a round, applied from nothing: those without an index are
/// complete, in order; each index that came has one call, whose name is the
/// last non-empty name given for it and whose argument text is every piece
/// given for it, appended in order. (`close` then lists them by index.)
pub proof fn lemma_calls_merged(cs: Seq<OllamaToolCall>, j: usize)
    ensures
        apply_calls(Map::empty(), Seq::empty(), cs).1 == unindexed(cs),
        apply_calls(Map::empty(), Seq::empty(), cs).0.contains_key(j) == has_index(cs, j),
        has_index(cs, j) ==> apply_calls(Map::empty(), Seq::empty(), cs).0[j] == (
            merged_name(cs, j),
            merged_args(cs, j),
        ),
    decreases cs.len(),
{
    if cs.len() > 0 {
        let init = cs.drop_last();
        lemma_calls_merged(init, j);
        let call = cs.last();
        assert(has_index(cs, j) == (has_index(init, j) || call.index == Some(j))) by {
            if has_index(cs, j) && call.index != Some(j) {
                let i = choose|i: int| 0 <= i < cs.len() && cs[i].index == Some(j);
                assert(init[i] == cs[i]);
            }
            if has_index(init, j) {
                let i = choose|i: int| 0 <= i < init.len() && init[i].index == Some(j);
                assert(cs[i] == init[i]);
            }
        }
        if !has_index(init, j) {
            lemma_no_index(init, j);
        }
        match call.index {
            Some(idx) => {
                if idx == j {
                    assert(merged_args(init, j) + delta_args(call) == merged_args(cs, j));
                }
            },
            None => {},
        }
    } else {
        assert(!has_index(cs, j));
    }
}

// ---------------------------------------------------------------------------
// A whole round
// ---------------------------------------------------------------------------

/// The state after reading the messages of a round in order.
pub open spec fn read_all(r: RoundView, msgs: Seq<OllamaMessage>) -> RoundView
    decreases msgs.len(),
{
    if msgs.len() == 0 {
        r
    } else {
        read_message(read_all(r, msgs.drop_last()), msgs.last()).0
    }
}

/// The events produced while reading the messages of a round, in order.
pub open spec fn events_all(r: RoundView, msgs: Seq<OllamaMessage>) -> Seq<StreamEventView>
    decreases msgs.len(),
{
    if msgs.len() == 0 {
        Seq::empty()
    } else {
        events_all(r, msgs.drop_last()) + read_message(read_all(r, msgs.drop_last()), msgs.last()).1
    }
}

/// The tool calls a message carries.
pub open spec fn message_calls(m: OllamaMessage) -> Seq<OllamaToolCall> {
    match m.tool_calls {
        Some(cs) => cs@,
        None => Seq::empty(),
    }
}

/// The tool calls of a round's messages, in the order they came.
pub open spec fn round_calls(msgs: Seq<OllamaMessage>) -> Seq<OllamaToolCall>
    decreases msgs.len(),
{
    if msgs.len() == 0 {
        Seq::empty()
    } else {
        round_calls(msgs.drop_last()) + message_calls(msgs.last())
    }
}

/// A round before anything is read.
pub open spec fn fresh_round() -> RoundView {
    RoundView {
        content: Seq::empty(),
        thinking: Seq::empty(),
        thinking_active: false,
        partial: Map::empty(),
        complete: Seq::empty(),
    }
}

proof fn lemma_apply_calls_concat(
    p: Map<usize, PartialCall>,
    c: Seq<OllamaToolCall>,
    a: Seq<OllamaToolCall>,
    b: Seq<OllamaToolCall>,
)
    ensures
        apply_calls(p, c, a + b) == apply_calls(apply_calls(p, c, a).0, apply_calls(p, c, a).1, b),
    decreases b.len(),
{
    if b.len() == 0 {
        assert(a + b =~= a);
    } else {
        lemma_apply_calls_concat(p, c, a, b.drop_last());
        assert((a + b).drop_last() =~= a + b.drop_last());
        assert((a + b).last() == b.last());
    }
}

/// The calls of a whole round: reading its messages gathers exactly what
/// applying all their tool calls, in order, from nothing gives. So the
/// calls without an index are kept whole, in order, and each index that
/// came has one call, named by the last non-empty name given for it, with
/// every argument piece given for it appended in order (which `close` then
/// lists by increasing index).
pub proof fn lemma_round_calls(msgs: Seq<OllamaMessage>, j: usize)
    ensures
        (read_all(fresh_round(), msgs).partial, read_all(fresh_round(), msgs).complete)
            == apply_calls(Map::empty(), Seq::empty(), round_calls(msgs)),
        read_all(fresh_round(), msgs).complete == unindexed(round_calls(msgs)),
        read_all(fresh_round(), msgs).partial.contains_key(j) == has_index(round_calls(msgs), j),
        has_index(round_calls(msgs), j) ==> read_all(fresh_round(), msgs).partial[j] == (
            merged_name(round_calls(msgs), j),
            merged_args(round_calls(msgs), j),
        ),
    decreases msgs.len(),
{
    if msgs.len() > 0 {
        lemma_round_calls(msgs.drop_last(), j);
        let init = msgs.drop_last();
        lemma_apply_calls_concat(Map::empty(), Seq::empty(), round_calls(init), message_calls(msgs.last()));
        if msgs.last().tool_calls is None {
            assert(round_calls(init) + message_calls(msgs.last()) =~= round_calls(init));
        }
    }
    lemma_calls_merged(round_calls(msgs), j);
}

/// Whether the thinking output is open after `es`, when it was `start`
/// before them.
pub open spec fn open_after(start: bool, es: Seq<StreamEventView>) -> bool
    decreases es.len(),
{
    if es.len() == 0 {
        start
    } else {
        match es.last() {
            StreamEventView::ThinkingStart => true,
            StreamEventView::ThinkingContent(_) => true,
            StreamEventView::ThinkingEnd => false,
            StreamEventView::TextContent(_) => open_after(start, es.drop_last()),
        }
    }
}

/// Events in a good order: the thinking output is opened only when closed,
/// its pieces and its end come only while it is open, and text comes only
/// while it is closed.
pub open spec fn well_ordered(start: bool, es: Seq<StreamEventView>) -> bool {
    forall|i: int|
        0 <= i < es.len() ==> match #[trigger] es[i] {
            StreamEventView::ThinkingStart => !open_after(start, es.take(i)),
            StreamEventView::ThinkingContent(_) => open_after(start, es.take(i)),
            StreamEventView::ThinkingEnd => open_after(start, es.take(i)),
            StreamEventView::TextContent(_) => !open_after(start, es.take(i)),
        }
}

proof fn lemma_open_after_concat(s: bool, a: Seq<StreamEventView>, b: Seq<StreamEventView>)
    ensures
        open_after(s, a + b) == open_after(open_after(s, a), b),
    decreases b.len(),
{
    if b.len() == 0 {
        assert(a + b =~= a);
    } else {
        lemma_open_after_concat(s, a, b.drop_last());
        assert((a + b).drop_last() =~= a + b.drop_last());
        assert((a + b).last() == b.last());
    }
}

proof fn lemma_well_ordered_concat(s: bool, a: Seq<StreamEventView>, b: Seq<StreamEventView>)
    requires
        well_ordered(s, a),
        well_ordered(open_after(s, a), b),
    ensures
        well_ordered(s, a + b),
        open_after(s, a + b) == open_after(open_after(s, a), b),
{
    lemma_open_after_concat(s, a, b);
    assert forall|i: int| 0 <= i < (a + b).len() implies match #[trigger] (a + b)[i] {
        StreamEventView::ThinkingStart => !open_after(s, (a + b).take(i)),
        StreamEventView::ThinkingContent(_) => open_after(s, (a + b).take(i)),
        StreamEventView::ThinkingEnd => open_after(s, (a + b).take(i)),
        StreamEventView::TextContent(_) => !open_after(s, (a + b).take(i)),
    } by {
        if i < a.len() {
            assert((a + b).take(i) =~= a.take(i));
            assert((a + b)[i] == a[i]);
        } else {
            let k = i - a.len();
            assert((a + b).take(i) =~= a + b.take(k));
            assert((a + b)[i] == b[k]);
            lemma_open_after_concat(s, a, b.take(k));
        }
    }
}

/// The events of one message are well ordered from the state before it, and
/// leave the thinking output open exactly when the state after it says so.
proof fn lemma_message_events(r: RoundView, m: OllamaMessage)
    ensures
        well_ordered(r.thinking_active, read_message(r, m).1),
        open_after(r.thinking_active, read_message(r, m).1) == read_message(r, m).0.thinking_active,
{
    let s = r.thinking_active;
    let t = match m.thinking {
        Some(t) => t@,
        None => Seq::<char>::empty(),
    };
    let c = m.content@;
    let start: Seq<StreamEventView> = if s {
        Seq::empty()
    } else {
        seq![StreamEventView::ThinkingStart]
    };
    let ev1: Seq<StreamEventView> = if t.len() > 0 {
        start.push(StreamEventView::ThinkingContent(t))
    } else {
        Seq::empty()
    };
    let active1 = if t.len() > 0 {
        true
    } else {
        s
    };
    let end: Seq<StreamEventView> = if active1 {
        seq![StreamEventView::ThinkingEnd]
    } else {
        Seq::empty()
    };
    let ev2: Seq<StreamEventView> = if c.len() > 0 {
        end.push(StreamEventView::TextContent(c))
    } else {
        Seq::empty()
    };
    assert(read_message(r, m).1 == ev1 + ev2);
    // The thinking part.
    assert(well_ordered(s, ev1) && open_after(s, ev1) == active1) by {
        if t.len() > 0 {
            if s {
                assert(ev1 =~= seq![StreamEventView::ThinkingContent(t)]);
                assert(ev1.take(0) =~= Seq::<StreamEventView>::empty());
                assert(ev1.drop_last() =~= Seq::<StreamEventView>::empty());
            } else {
                assert(ev1 =~= seq![StreamEventView::ThinkingStart, StreamEventView::ThinkingContent(t)]);
                assert(ev1.take(0) =~= Seq::<StreamEventView>::empty());
                assert(ev1.take(1) =~= seq![StreamEventView::ThinkingStart]);
                assert(ev1.take(1).drop_last() =~= Seq::<StreamEventView>::empty());
            }
        }
    }
    // The text part.
    let active2 = read_message(r, m).0.thinking_active;
    if c.len() > 0 {
        assert(active2 == false);
        if active1 {
            assert(ev2 =~= seq![StreamEventView::ThinkingEnd, StreamEventView::TextContent(c)]);
            assert(ev2.take(0) =~= Seq::<StreamEventView>::empty());
            assert(ev2.take(1) =~= seq![StreamEventView::ThinkingEnd]);
            assert(ev2.take(1).drop_last() =~= Seq::<StreamEventView>::empty());
            assert(!open_after(active1, ev2.take(1)));
            assert(ev2.drop_last() =~= seq![StreamEventView::ThinkingEnd]);
            assert(!open_after(active1, ev2));
            assert forall|i: int| 0 <= i < ev2.len() implies match #[trigger] ev2[i] {
                StreamEventView::ThinkingStart => !open_after(active1, ev2.take(i)),
                StreamEventView::ThinkingContent(_) => open_after(active1, ev2.take(i)),
                StreamEventView::ThinkingEnd => open_after(active1, ev2.take(i)),
                StreamEventView::TextContent(_) => !open_after(active1, ev2.take(i)),
            } by {
                if i == 0 {
                    assert(ev2[0] == StreamEventView::ThinkingEnd);
                } else {
                    assert(ev2[1] == StreamEventView::TextContent(c));
                }
            }
        } else {
            assert(ev2 =~= seq![StreamEventView::TextContent(c)]);
            assert(ev2.take(0) =~= Seq::<StreamEventView>::empty());
            assert(ev2.drop_last() =~= Seq::<StreamEventView>::empty());
            assert(!open_after(active1, ev2));
            assert forall|i: int| 0 <= i < ev2.len() implies match #[trigger] ev2[i] {
                StreamEventView::ThinkingStart => !open_after(active1, ev2.take(i)),
                StreamEventView::ThinkingContent(_) => open_after(active1, ev2.take(i)),
                StreamEventView::ThinkingEnd => open_after(active1, ev2.take(i)),
                StreamEventView::TextContent(_) => !open_after(active1, ev2.take(i)),
            } by {
                assert(ev2[0] == StreamEventView::TextContent(c));
            }
        }
    } else {
        assert(active2 == active1);
        assert(ev2 =~= Seq::<StreamEventView>::empty());
    }
    assert(well_ordered(active1, ev2));
    assert(open_after(active1, ev2) == active2);
    lemma_well_ordered_concat(s, ev1, ev2);
}

/// The events of a whole round, with the end of the thinking output that
/// `close` reports when it is still open: the thinking output is opened only
/// when closed, text comes only while it is closed, and it is closed at the
/// end.
pub proof fn lemma_round_events(msgs: Seq<OllamaMessage>)
    ensures
        open_after(false, events_all(fresh_round(), msgs)) == read_all(fresh_round(), msgs).thinking_active,
        well_ordered(
            false,
            events_all(fresh_round(), msgs) + if read_all(fresh_round(), msgs).thinking_active {
                seq![StreamEventView::ThinkingEnd]
            } else {
                Seq::empty()
            },
        ),
        !open_after(
            false,
            events_all(fresh_round(), msgs) + if read_all(fresh_round(), msgs).thinking_active {
                seq![StreamEventView::ThinkingEnd]
            } else {
                Seq::empty()
            },
        ),
    decreases msgs.len(),
{
    lemma_round_events_open(msgs);
    let es = events_all(fresh_round(), msgs);
    let active = read_all(fresh_round(), msgs).thinking_active;
    let tail: Seq<StreamEventView> = if active {
        seq![StreamEventView::ThinkingEnd]
    } else {
        Seq::empty()
    };
    assert(well_ordered(active, tail)) by {
        if active {
            assert(tail.take(0) =~= Seq::<StreamEventView>::empty());
        }
    }
    lemma_well_ordered_concat(false, es, tail);
    if !active {
        assert(es + tail =~= es);
    }
}

proof fn lemma_round_events_open(msgs: Seq<OllamaMessage>)
    ensures
        well_ordered(false, events_all(fresh_round(), msgs)),
        open_after(false, events_all(fresh_round(), msgs)) == read_all(fresh_round(), msgs).thinking_active,
    decreases msgs.len(),
{
    if msgs.len() > 0 {
        let init = msgs.drop_last();
        lemma_round_events_open(init);
        let r = read_all(fresh_round(), init);
        lemma_message_events(r, msgs.last());
        lemma_well_ordered_concat(false, events_all(fresh_round(), init), read_message(r, msgs.last()).1);
    } else {
        assert(events_all(fresh_round(), msgs) =~= Seq::<StreamEventView>::empty());
    }
}

/// The text pieces of a round's messages, joined in order.
pub open spec fn round_content(msgs: Seq<OllamaMessage>) -> Seq<char>
    decreases msgs.len(),
{
    if msgs.len() == 0 {
        Seq::empty()
    } else {
        round_content(msgs.drop_last()) + msgs.last().content@
    }
}

/// The thinking pieces of a round's messages, joined in order.
pub open spec fn round_thinking(msgs: Seq<OllamaMessage>) -> Seq<char>
    decreases msgs.len(),
{
    if msgs.len() == 0 {
        Seq::empty()
    } else {
        round_thinking(msgs.drop_last()) + match msgs.last().thinking {
            Some(t) => t@,
            None => Seq::empty(),
        }
    }
}

/// Reading messages appends their text and their thinking, in order, to
/// what was gathered: no piece is lost, replaced or reordered.
pub proof fn lemma_round_text(r: RoundView, msgs: Seq<OllamaMessage>)
    ensures
        read_all(r, msgs).content == r.content + round_content(msgs),
        read_all(r, msgs).thinking == r.thinking + round_thinking(msgs),
        read_all(fresh_round(), msgs).content == round_content(msgs),
        read_all(fresh_round(), msgs).thinking == round_thinking(msgs),
    decreases msgs.len(),
{
    if msgs.len() == 0 {
        assert(r.content + round_content(msgs) =~= r.content);
        assert(r.thinking + round_thinking(msgs) =~= r.thinking);
        assert(Seq::<char>::empty() + round_content(msgs) =~= round_content(msgs));
        assert(Seq::<char>::empty() + round_thinking(msgs) =~= round_thinking(msgs));
    } else {
        let init = msgs.drop_last();
        let m = msgs.last();
        lemma_round_text(r, init);
        lemma_round_text(fresh_round(), init);
        let t = match m.thinking {
            Some(t) => t@,
            None => Seq::<char>::empty(),
        };
        let c = m.content@;
        let p = read_all(r, init);
        let q = read_all(fresh_round(), init);
        if c.len() == 0 {
            assert(c =~= Seq::<char>::empty());
        }
        if t.len() == 0 {
            assert(t =~= Seq::<char>::empty());
        }
        assert(read_message(p, m).0.content =~= p.content + c);
        assert(read_message(p, m).0.thinking =~= p.thinking + t);
        assert(read_message(q, m).0.content =~= q.content + c);
        assert(read_message(q, m).0.thinking =~= q.thinking + t);
        assert(r.content + round_content(init) + c =~= r.content + (round_content(init) + c));
        assert(r.thinking + round_thinking(init) + t =~= r.thinking + (round_thinking(init) + t));
        assert(Seq::<char>::empty() + round_content(msgs) =~= round_content(msgs));
        assert(Seq::<char>::empty() + round_thinking(msgs) =~= round_thinking(msgs));
        assert(q.content =~= round_content(init));
        assert(q.thinking =~= round_thinking(init));
    }
}

} // verus!

