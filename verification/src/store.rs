//! The session identity store: process-wide keyed storage that creates a
//! session's state on its first lookup and hands back the same entry on
//! every later lookup of the same key.  Entries are never removed; the
//! map only grows, for the process lifetime.

use vstd::prelude::*;

use crate::client::{spec_new_client, ClientView, PaintClientData};

verus! {

/// The tabs a session can show.  Session-owned enumerated state, mutated
/// only by that session's own input, independent across sessions.
#[derive(Clone, Copy, PartialEq, Eq, Structural, Debug)]
pub enum Tab {
    Paint,
    Text,
    Demo,
    DemoShared,
}

/// Everything stored per session: the selected tab and the session's
/// canvas view state.
pub struct ClientData {
    pub tab: Tab,
    pub paint: PaintClientData,
}

/// The mathematical value of one session's stored data.
pub struct ClientDataView {
    pub tab: Tab,
    pub paint: ClientView,
}

impl View for ClientData {
    type V = ClientDataView;

    open spec fn view(&self) -> ClientDataView {
        ClientDataView { tab: self.tab, paint: self.paint@ }
    }
}

/// The stored data a session is created with: canvas tab, fresh view
/// state.
pub open spec fn spec_new_session() -> ClientDataView {
    ClientDataView { tab: Tab::Paint, paint: spec_new_client() }
}

impl Default for ClientData {
    /// What the store creates on a key's first lookup.
    fn default() -> (c: ClientData)
        ensures
            c@ == spec_new_session(),
            c@.paint.wf(),
    {
        ClientData { tab: Tab::Paint, paint: PaintClientData::default() }
    }
}

/// The store's mathematical value: a key list and the stored state of
/// each key, kept in step.
pub struct StoreView {
    pub keys: Seq<u64>,
    pub states: Seq<ClientDataView>,
}

impl StoreView {
    /// One state per key, and two distinct live sessions never collide on
    /// the same key.
    pub open spec fn wf(self) -> bool {
        &&& self.keys.len() == self.states.len()
        &&& forall|i: int, j: int|
            0 <= i < j < self.keys.len() ==> self.keys[i] != self.keys[j]
    }
}

/// Keyed storage of per-session state, one entry per session identity.
pub struct SessionStore {
    keys: Vec<u64>,
    states: Vec<ClientData>,
}

impl View for SessionStore {
    type V = StoreView;

    closed spec fn view(&self) -> StoreView {
        StoreView { keys: self.keys@, states: self.states@.map_values(|c: ClientData| c@) }
    }
}

impl SessionStore {
    /// An empty store: no session has made contact yet.
    pub fn new() -> (st: SessionStore)
        ensures
            st@.keys == Seq::<u64>::empty(),
            st@.states == Seq::<ClientDataView>::empty(),
            st@.wf(),
    {
        let st = SessionStore { keys: Vec::new(), states: Vec::new() };
        proof {
            assert(st@.states =~= Seq::<ClientDataView>::empty());
        }
        st
    }

    /// How many sessions have ever registered.
    pub fn len(&self) -> (n: usize)
        ensures
            n == self@.keys.len(),
    {
        self.keys.len()
    }

    /// Look `key` up; on first contact, create its entry with defaults —
    /// absence is never an error.  Returns the entry's index, which with
    /// unique keys is the same on every lookup of the same key; a lookup
    /// of a present key changes nothing.
    pub fn get_or_create(&mut self, key: u64) -> (idx: usize)
        requires
            old(self)@.wf(),
        ensures
            final(self)@.wf(),
            idx < final(self)@.keys.len(),
            final(self)@.keys[idx as int] == key,
            old(self)@.keys.contains(key) ==> *final(self) == *old(self),
            !old(self)@.keys.contains(key) ==> {
                &&& final(self)@.keys == old(self)@.keys.push(key)
                &&& final(self)@.states == old(self)@.states.push(spec_new_session())
                &&& idx == old(self)@.keys.len()
            },
    {
        let mut i: usize = 0;
        while i < self.keys.len()
            invariant
                *self == *old(self),
                old(self)@.wf(),
                i <= self.keys@.len(),
                forall|j: int| 0 <= j < i ==> self.keys@[j] != key,
            decreases self.keys@.len() - i,
        {
            if self.keys[i] == key {
                proof {
                    assert(old(self)@.keys.contains(key)) by {
                        assert(old(self)@.keys[i as int] == key);
                    }
                }
                return i;
            }
            i = i + 1;
        }
        proof {
            assert(!old(self)@.keys.contains(key));
        }
        let idx = self.keys.len();
        self.keys.push(key);
        self.states.push(ClientData::default());
        proof {
            assert(self@.states =~= old(self)@.states.push(spec_new_session()));
            assert(self@.keys =~= old(self)@.keys.push(key));
        }
        idx
    }

    /// Read the entry at `idx`.
    pub fn state(&self, idx: usize) -> (c: &ClientData)
        requires
            idx < self@.states.len(),
        ensures
            c@ == self@.states[idx as int],
    {
        &self.states[idx]
    }

    /// Borrow the entry at `idx` for this session's tick; no other entry
    /// moves.
    pub fn state_mut(&mut self, idx: usize) -> (c: &mut ClientData)
        requires
            old(self)@.wf(),
            idx < old(self)@.states.len(),
        ensures
            (*c)@ == old(self)@.states[idx as int],
            final(self)@.keys == old(self)@.keys,
            final(self)@.states.len() == old(self)@.states.len(),
            final(self)@.states[idx as int] == final(c)@,
            forall|k: int|
                0 <= k < old(self)@.states.len() && k != idx ==> final(self)@.states[k] == old(
                    self,
                )@.states[k],
            final(self)@.wf(),
    {
        &mut self.states[idx]
    }
}

/// Law: lookups are stable — in a well-formed store two indices holding
/// the same key are one index, so every lookup of a session's key lands
/// on the same entry (and, by `get_or_create`'s contract, a lookup of a
/// present key leaves every entry untouched): the slot and palette a
/// session stored are the ones every later tick sees.
pub proof fn lemma_lookup_stable(st: StoreView, key: u64, i1: int, i2: int)
    requires
        st.wf(),
        0 <= i1 < st.keys.len(),
        0 <= i2 < st.keys.len(),
        st.keys[i1] == key,
        st.keys[i2] == key,
    ensures
        i1 == i2,
{
}

} // verus!
