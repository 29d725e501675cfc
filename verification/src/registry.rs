//! The open connections of a bridge and where each stands in its life.
use vstd::prelude::*;
use crate::envelope::ConnectionId;

verus! {

/// Where an open connection stands. A connection that was closed has no
/// state at all: closing is final for the connection, and its id is free to
/// be given to a new one.
#[derive(Clone, Copy, Debug, PartialEq, Eq, Structural)]
pub enum ConnectionState {
    /// Opened, no input yet.
    Connected,
    /// Has received input.
    Active,
}

/// One open connection.
#[derive(Clone, Copy, Debug)]
pub struct Entry {
    pub id: ConnectionId,
    pub state: ConnectionState,
}

/// The map that a list of entries stands for: a later entry overrides an
/// earlier one with the same id.
pub open spec fn entries_map(s: Seq<Entry>) -> Map<ConnectionId, ConnectionState>
    decreases s.len(),
{
    if s.len() == 0 {
        Map::empty()
    } else {
        entries_map(s.drop_last()).insert(s.last().id, s.last().state)
    }
}

/// The map of a list with one more entry.
pub proof fn lemma_entries_push(s: Seq<Entry>, e: Entry)
    ensures
        entries_map(s.push(e)) == entries_map(s).insert(e.id, e.state),
{
    assert(s.push(e).drop_last() =~= s);
}

/// An id that no entry has is not in the map.
pub proof fn lemma_entries_absent(s: Seq<Entry>, id: ConnectionId)
    requires
        forall|j: int| 0 <= j < s.len() ==> s[j].id != id,
    ensures
        !entries_map(s).contains_key(id),
    decreases s.len(),
{
    if s.len() > 0 {
        lemma_entries_absent(s.drop_last(), id);
    }
}

/// The map gives an id the state of the last entry that has it.
pub proof fn lemma_entries_last(s: Seq<Entry>, id: ConnectionId, k: int)
    requires
        0 <= k < s.len(),
        s[k].id == id,
        forall|j: int| k < j < s.len() ==> s[j].id != id,
    ensures
        entries_map(s).contains_key(id),
        entries_map(s)[id] == s[k].state,
    decreases s.len(),
{
    if k < s.len() - 1 {
        lemma_entries_last(s.drop_last(), id, k);
    }
}

/// The states of the open connections, by id.
pub struct Registry {
    entries: Vec<Entry>,
}

impl View for Registry {
    type V = Map<ConnectionId, ConnectionState>;

    closed spec fn view(&self) -> Map<ConnectionId, ConnectionState> {
        entries_map(self.entries@)
    }
}

impl Registry {
    /// No open connection.
    pub fn new() -> (r: Registry)
        ensures
            r@ == Map::<ConnectionId, ConnectionState>::empty(),
    {
        Registry { entries: Vec::new() }
    }

    /// The state of the connection `id`, if it is open.
    pub fn get(&self, id: ConnectionId) -> (state: Option<ConnectionState>)
        ensures
            state == if self@.contains_key(id) {
                Some(self@[id])
            } else {
                None
            },
    {
        let mut i: usize = self.entries.len();
        while i > 0
            invariant
                i <= self.entries.len(),
                forall|j: int| i <= j < self.entries@.len() ==> self.entries@[j].id != id,
            decreases i,
        {
            i = i - 1;
            let entry = self.entries[i];
            if entry.id == id {
                proof {
                    lemma_entries_last(self.entries@, id, i as int);
                }
                return Some(entry.state);
            }
        }
        proof {
            lemma_entries_absent(self.entries@, id);
        }
        None
    }

    /// Releases the state of the connection `id`, if it has any.
    pub fn remove(&mut self, id: ConnectionId)
        ensures
            final(self)@ == old(self)@.remove(id),
    {
        let mut kept: Vec<Entry> = Vec::new();
        let mut i: usize = 0;
        while i < self.entries.len()
            invariant
                i <= self.entries.len(),
                self.entries@ == old(self).entries@,
                entries_map(kept@) == entries_map(self.entries@.take(i as int)).remove(id),
            decreases self.entries.len() - i,
        {
            let entry = self.entries[i];
            proof {
                let before = self.entries@.take(i as int);
                assert(self.entries@.take(i + 1) =~= before.push(entry));
                lemma_entries_push(before, entry);
                lemma_entries_push(kept@, entry);
                if entry.id == id {
                    assert(entries_map(before).insert(id, entry.state).remove(id) =~= entries_map(
                        before,
                    ).remove(id));
                } else {
                    assert(entries_map(before).remove(id).insert(entry.id, entry.state)
                        =~= entries_map(before).insert(entry.id, entry.state).remove(id));
                }
            }
            if !(entry.id == id) {
                kept.push(entry);
            }
            i = i + 1;
        }
        proof {
            assert(self.entries@.take(i as int) =~= self.entries@);
        }
        self.entries = kept;
    }

    /// Gives the connection `id` the state `state`, opening it if need be.
    pub fn set(&mut self, id: ConnectionId, state: ConnectionState)
        ensures
            final(self)@ == old(self)@.insert(id, state),
    {
        self.remove(id);
        let entry = Entry { id, state };
        proof {
            lemma_entries_push(self.entries@, entry);
            assert(old(self)@.remove(id).insert(id, state) =~= old(self)@.insert(id, state));
        }
        self.entries.push(entry);
    }

    /// Releases the state of every connection.
    pub fn clear(&mut self)
        ensures
            final(self)@ == Map::<ConnectionId, ConnectionState>::empty(),
    {
        self.entries = Vec::new();
    }
}

} // verus!
