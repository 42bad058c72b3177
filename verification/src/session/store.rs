//! Session persistence: what is stored for a thread, and the in-memory
//! store.
use vstd::prelude::*;

use crate::error::AgentForgeError;
use crate::json::{lemma_same_items_prefix, members, same_items, same_json, Json};
use crate::ordmap::{
    keyed_view, lemma_lookup_insert, lookup, ordmap_get, ordmap_insert, sorted_entries,
    sorted_insert,
};
use crate::text::chars_of;
use crate::text::string_of;

verus! {

/// What is stored for a thread: its messages, its state and its summary.
#[derive(Debug)]
pub struct SessionData {
    pub messages: Vec<Json>,
    pub state: Json,
    pub summary: Option<String>,
}

impl SessionData {
    /// A copy of the stored data.
    pub fn duplicate(&self) -> (res: SessionData)
        ensures
            res.messages@.len() == self.messages@.len(),
            same_items(res.messages@, self.messages@, self.messages@.len()),
            same_json(res.state, self.state),
            crate::session::stream::opt_chars(res.summary) == crate::session::stream::opt_chars(
                self.summary,
            ),
    {
        let mut messages: Vec<Json> = Vec::new();
        let mut i: usize = 0;
        while i < self.messages.len()
            invariant
                0 <= i <= self.messages.len(),
                messages@.len() == i,
                same_items(messages@, self.messages@, i as nat),
            decreases self.messages.len() - i,
        {
            let item = self.messages[i].duplicate();
            let ghost before = messages@;
            messages.push(item);
            proof {
                lemma_same_items_prefix(before, messages@, self.messages@, i as nat);
            }
            i = i + 1;
        }
        let summary = match &self.summary {
            Some(s) => Some(s.clone()),
            None => None,
        };
        SessionData { messages, state: self.state.duplicate(), summary }
    }

    /// No messages, an empty state object and no summary.
    pub fn default() -> (res: SessionData)
        ensures
            res.messages@.len() == 0,
            res.state is Object,
            members(res.state).len() == 0,
            res.summary is None,
    {
        SessionData { messages: Vec::new(), state: Json::empty_object(), summary: None }
    }
}

/// What a session starts from: what the store gave back for its thread,
/// or, when nothing was stored or the store failed, an empty session.
pub fn session_start(loaded: Result<Option<SessionData>, AgentForgeError>) -> (res: SessionData)
    ensures
        loaded matches Ok(Some(d)) ==> res == d,
        !(loaded matches Ok(Some(_))) ==> res.messages@.len() == 0 && res.state is Object
            && members(res.state).len() == 0 && res.summary is None,
{
    match loaded {
        Ok(Some(d)) => d,
        _ => SessionData::default(),
    }
}

/// Sessions kept in memory, by thread id.
pub struct InMemoryStore {
    sessions: Vec<(String, SessionData)>,
}

impl InMemoryStore {
    /// The stored sessions, ordered by thread id.
    pub closed spec fn sessions(&self) -> Seq<(Seq<char>, SessionData)> {
        keyed_view(self.sessions@)
    }

    pub closed spec fn wf(&self) -> bool {
        sorted_entries(self.sessions())
    }

    pub fn new() -> (res: Self)
        ensures
            res.sessions().len() == 0,
            res.wf(),
    {
        let s: Vec<(String, SessionData)> = Vec::new();
        assert(keyed_view(s@) =~= Seq::<(Seq<char>, SessionData)>::empty());
        InMemoryStore { sessions: s }
    }

    /// Stores `data` for `thread_id`, replacing what was stored for it.
    pub fn save(&mut self, thread_id: &str, data: SessionData) -> (res: Result<(), AgentForgeError>)
        ensures
            res is Ok,
            final(self).sessions() == sorted_insert(old(self).sessions(), thread_id@, data),
            old(self).wf() ==> final(self).wf(),
    {
        let key = string_of(&chars_of(thread_id));
        ordmap_insert(&mut self.sessions, key, data);
        Ok(())
    }

    /// What is stored for `thread_id`, if anything.
    pub fn load(&self, thread_id: &str) -> (res: Result<Option<&SessionData>, AgentForgeError>)
        ensures
            res matches Ok(found) && match found {
                Some(d) => lookup(self.sessions(), thread_id@) == Some(*d),
                None => lookup(self.sessions(), thread_id@) is None,
            },
    {
        Ok(ordmap_get(&self.sessions, thread_id))
    }
}

/// A load gives back what the last save for the same thread stored, and
/// saving one thread leaves what is stored for the others.
pub proof fn lemma_load_after_save(
    sessions: Seq<(Seq<char>, SessionData)>,
    thread_id: Seq<char>,
    data: SessionData,
    other: Seq<char>,
)
    ensures
        lookup(sorted_insert(sessions, thread_id, data), thread_id) == Some(data),
        other != thread_id ==> lookup(sorted_insert(sessions, thread_id, data), other) == lookup(
            sessions,
            other,
        ),
{
    lemma_lookup_insert(sessions, thread_id, data, thread_id);
    lemma_lookup_insert(sessions, thread_id, data, other);
}

} // verus!
