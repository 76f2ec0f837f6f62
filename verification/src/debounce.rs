//! Coalesces bursts of change events per file.
//!
//! The debouncer is a state machine driven by its caller. An event that
//! carries a path arms a timer for the first of its paths, its key: the
//! caller is to wake the debouncer for that key at the deadline. A wake-up
//! hands out the remembered event when the key's deadline has passed, and
//! nothing otherwise; a newer event for the key moves the deadline and so
//! turns the older timers into wake-ups that hand out nothing.

use crate::text::{same_text, texts};
use vstd::prelude::*;

verus! {

/// What happened to the watched files.
#[derive(Clone, Copy, Debug, PartialEq, Eq, Structural)]
pub enum ChangeKind {
    Any,
    Access,
    Create,
    Modify,
    Remove,
    Other,
}

/// A change notification: the affected paths, possibly none, and the kind of
/// change.
#[derive(Clone, Debug, PartialEq, Eq)]
pub struct WatchEvent {
    pub paths: Vec<String>,
    pub kind: ChangeKind,
}

/// The mathematical model of a `WatchEvent`.
pub ghost struct WatchEventView {
    pub paths: Seq<Seq<char>>,
    pub kind: ChangeKind,
}

impl View for WatchEvent {
    type V = WatchEventView;

    open spec fn view(&self) -> WatchEventView {
        WatchEventView { paths: texts(self.paths@), kind: self.kind }
    }
}

/// A timer that the caller is to set: wake the debouncer for `key` at
/// `deadline`.
#[derive(Clone, Debug, PartialEq, Eq)]
pub struct Timer {
    pub key: String,
    pub deadline: u64,
}

/// The event that a key waits to hand out, and when.
pub ghost struct Pending {
    pub payload: WatchEventView,
    pub deadline: nat,
}

/// The mathematical model of a `Debouncer`.
pub ghost struct DebounceState {
    pub window: nat,
    pub pending: Map<Seq<char>, Pending>,
}

/// The key of an event: its first path. An event without paths has none.
pub open spec fn key_of(event: WatchEventView) -> Option<Seq<char>> {
    if event.paths.len() == 0 {
        None
    } else {
        Some(event.paths[0])
    }
}

/// The deadline of an event that arrives at `now`: `window` later, and no
/// later than the largest instant.
pub open spec fn deadline_after(now: nat, window: nat) -> nat {
    if now + window > u64::MAX {
        u64::MAX as nat
    } else {
        now + window
    }
}

/// The state in which nothing is pending.
pub open spec fn initial(window: nat) -> DebounceState {
    DebounceState { window, pending: Map::empty() }
}

/// The state after `event` arrives at `now`.
pub open spec fn registered(state: DebounceState, event: WatchEventView, now: nat) -> DebounceState {
    match key_of(event) {
        Some(key) => DebounceState {
            pending: state.pending.insert(
                key,
                Pending { payload: event, deadline: deadline_after(now, state.window) },
            ),
            ..state
        },
        None => state,
    }
}

/// Whether a wake-up for `key` at `now` finds its deadline passed.
pub open spec fn due(state: DebounceState, key: Seq<char>, now: nat) -> bool {
    state.pending.contains_key(key) && state.pending[key].deadline <= now
}

/// What a wake-up for `key` at `now` hands out.
pub open spec fn fired(state: DebounceState, key: Seq<char>, now: nat) -> Option<WatchEventView> {
    if due(state, key, now) {
        Some(state.pending[key].payload)
    } else {
        None
    }
}

/// The state after a wake-up for `key` at `now`.
pub open spec fn expired(state: DebounceState, key: Seq<char>, now: nat) -> DebounceState {
    if due(state, key, now) {
        DebounceState { pending: state.pending.remove(key), ..state }
    } else {
        state
    }
}

/// One key of the timer table.
struct Slot {
    key: String,
    payload: WatchEvent,
    deadline: u64,
}

/// The index of the slot of `key`, or -1 where it has none.
spec fn slot_index(slots: Seq<Slot>, key: Seq<char>) -> int
    decreases slots.len(),
{
    if slots.len() == 0 {
        -1
    } else {
        let earlier = slot_index(slots.drop_last(), key);
        if earlier >= 0 {
            earlier
        } else if slots.last().key@ == key {
            slots.len() - 1
        } else {
            -1
        }
    }
}

/// No key has two slots.
spec fn unique_keys(slots: Seq<Slot>) -> bool {
    forall|i: int, j: int| 0 <= i < j < slots.len() ==> slots[i].key@ != slots[j].key@
}

/// What a slot waits to hand out.
spec fn pending_of(slot: Slot) -> Pending {
    Pending { payload: slot.payload@, deadline: slot.deadline as nat }
}

/// The pending events of a timer table, by key.
spec fn pending_map(slots: Seq<Slot>) -> Map<Seq<char>, Pending> {
    Map::new(|key: Seq<char>| slot_index(slots, key) >= 0, |key: Seq<char>| pending_of(slots[slot_index(slots, key)]))
}

proof fn lemma_slot_index(slots: Seq<Slot>, key: Seq<char>)
    ensures
        -1 <= slot_index(slots, key) < slots.len(),
        slot_index(slots, key) >= 0 ==> slots[slot_index(slots, key)].key@ == key,
        forall|k: int| 0 <= k < slot_index(slots, key) ==> slots[k].key@ != key,
        slot_index(slots, key) == -1 ==> forall|k: int| 0 <= k < slots.len() ==> slots[k].key@ != key,
    decreases slots.len(),
{
    if slots.len() > 0 {
        let front = slots.drop_last();
        lemma_slot_index(front, key);
        assert forall|k: int| 0 <= k < slot_index(slots, key) implies slots[k].key@ != key by {
            assert(slots[k] == front[k]);
        }
        if slot_index(slots, key) == -1 {
            assert forall|k: int| 0 <= k < slots.len() implies slots[k].key@ != key by {
                if k < front.len() {
                    assert(slots[k] == front[k]);
                }
            }
        }
    }
}

/// With unique keys, the slot that holds a key is the slot of that key.
proof fn lemma_slot_index_is(slots: Seq<Slot>, at: int)
    requires
        unique_keys(slots),
        0 <= at < slots.len(),
    ensures
        slot_index(slots, slots[at].key@) == at,
{
    lemma_slot_index(slots, slots[at].key@);
}

/// Replacing the slot of a key binds the key anew and no other.
proof fn lemma_replace_slot(slots: Seq<Slot>, at: int, slot: Slot)
    requires
        unique_keys(slots),
        0 <= at < slots.len(),
        slot.key@ == slots[at].key@,
    ensures
        unique_keys(slots.update(at, slot)),
        pending_map(slots.update(at, slot)) == pending_map(slots).insert(slot.key@, pending_of(slot)),
{
    let after = slots.update(at, slot);
    assert forall|i: int, j: int| 0 <= i < j < after.len() implies after[i].key@ != after[j].key@ by {
        assert(after[i].key@ == slots[i].key@ && after[j].key@ == slots[j].key@);
    }
    assert forall|key: Seq<char>| slot_index(after, key) == slot_index(slots, key) by {
        lemma_slot_index(after, key);
        lemma_slot_index(slots, key);
        let a = slot_index(after, key);
        let b = slot_index(slots, key);
        if a >= 0 {
            assert(slots[a].key@ == key);
        }
        if b >= 0 {
            assert(after[b].key@ == key);
        }
    }
    lemma_slot_index_is(slots, at);
    assert(slot_index(after, slot.key@) == at);
    assert forall|key: Seq<char>| key != slot.key@ && slot_index(after, key) >= 0 implies after[slot_index(
        after,
        key,
    )] == slots[slot_index(slots, key)] by {
        lemma_slot_index(slots, key);
    }
    assert(pending_map(after) =~= pending_map(slots).insert(slot.key@, pending_of(slot)));
}

/// Adding a slot for a key that has none binds that key and no other.
proof fn lemma_add_slot(slots: Seq<Slot>, slot: Slot)
    requires
        unique_keys(slots),
        slot_index(slots, slot.key@) == -1,
    ensures
        unique_keys(slots.push(slot)),
        pending_map(slots.push(slot)) == pending_map(slots).insert(slot.key@, pending_of(slot)),
{
    let after = slots.push(slot);
    lemma_slot_index(slots, slot.key@);
    assert(after.drop_last() =~= slots);
    assert forall|i: int, j: int| 0 <= i < j < after.len() implies after[i].key@ != after[j].key@ by {
        if j < slots.len() {
            assert(after[i] == slots[i] && after[j] == slots[j]);
        } else {
            assert(after[i] == slots[i]);
        }
    }
    assert forall|key: Seq<char>| slot_index(after, key) >= 0 implies after[slot_index(after, key)] == (if key
        == slot.key@ {
        slot
    } else {
        slots[slot_index(slots, key)]
    }) by {
        lemma_slot_index(slots, key);
    }
    assert(pending_map(after) =~= pending_map(slots).insert(slot.key@, pending_of(slot)));
}

/// Removing the slot of a key unbinds that key and no other.
proof fn lemma_remove_slot(slots: Seq<Slot>, at: int)
    requires
        unique_keys(slots),
        0 <= at < slots.len(),
    ensures
        unique_keys(slots.remove(at)),
        pending_map(slots.remove(at)) == pending_map(slots).remove(slots[at].key@),
{
    let after = slots.remove(at);
    let gone = slots[at].key@;
    assert forall|i: int| 0 <= i < after.len() implies after[i] == (if i < at {
        slots[i]
    } else {
        slots[i + 1]
    }) by {}
    assert forall|i: int, j: int| 0 <= i < j < after.len() implies after[i].key@ != after[j].key@ by {}
    assert forall|key: Seq<char>|
        (slot_index(after, key) >= 0 <==> key != gone && slot_index(slots, key) >= 0) && (slot_index(after, key)
            >= 0 ==> after[slot_index(after, key)] == slots[slot_index(slots, key)]) by {
        lemma_slot_index(after, key);
        lemma_slot_index(slots, key);
        let a = slot_index(after, key);
        let b = slot_index(slots, key);
        if a >= 0 {
            let from = if a < at {
                a
            } else {
                a + 1
            };
            assert(slots[from].key@ == key);
            lemma_slot_index_is(slots, from);
        }
        if b >= 0 && key != gone {
            let to = if b < at {
                b
            } else {
                b - 1
            };
            assert(after[to].key@ == key);
        }
    }
    assert(pending_map(after) =~= pending_map(slots).remove(gone));
}

/// The timer table of one watch session.
pub struct Debouncer {
    window: u64,
    slots: Vec<Slot>,
}

impl View for Debouncer {
    type V = DebounceState;

    closed spec fn view(&self) -> DebounceState {
        DebounceState { window: self.window as nat, pending: pending_map(self.slots@) }
    }
}

impl Debouncer {
    /// The invariant of the type: no key has two timers.
    pub closed spec fn wf(&self) -> bool {
        unique_keys(self.slots@)
    }

    /// A debouncer with the given quiescence window and nothing pending.
    pub fn new(window: u64) -> (debouncer: Debouncer)
        ensures
            debouncer.wf(),
            debouncer@ == initial(window as nat),
    {
        let debouncer = Debouncer { window, slots: Vec::new() };
        assert(debouncer@.pending =~= Map::empty());
        debouncer
    }

    /// The quiescence window.
    pub fn window(&self) -> (window: u64)
        ensures
            window == self@.window,
    {
        self.window
    }

    /// The index of the slot of `key`.
    fn find(&self, key: &str) -> (found: Option<usize>)
        ensures
            found is None <==> slot_index(self.slots@, key@) == -1,
            found matches Some(i) ==> i == slot_index(self.slots@, key@) && i < self.slots@.len(),
    {
        let mut i: usize = 0;
        while i < self.slots.len()
            invariant
                i <= self.slots@.len(),
                forall|k: int| 0 <= k < i ==> self.slots@[k].key@ != key@,
            decreases self.slots@.len() - i,
        {
            if same_text(self.slots[i].key.as_str(), key) {
                proof {
                    lemma_slot_index(self.slots@, key@);
                }
                return Some(i);
            }
            i = i + 1;
        }
        proof {
            lemma_slot_index(self.slots@, key@);
        }
        None
    }

    /// Whether an event is pending for `key`.
    pub fn is_pending(&self, key: &str) -> (pending: bool)
        ensures
            pending == self@.pending.contains_key(key@),
    {
        self.find(key).is_some()
    }

    /// Takes in an event that arrives at `now`. An event without paths is
    /// dropped. Any other event becomes the pending event of its key, in
    /// place of an earlier one, and its timer is handed back.
    pub fn register(&mut self, event: WatchEvent, now: u64) -> (armed: Option<Timer>)
        requires
            old(self).wf(),
        ensures
            final(self).wf(),
            final(self)@ == registered(old(self)@, event@, now as nat),
            armed is Some <==> key_of(event@) is Some,
            armed matches Some(timer) ==> timer.key@ == key_of(event@)->0 && timer.deadline == deadline_after(
                now as nat,
                old(self)@.window,
            ),
    {
        if event.paths.len() == 0 {
            return None;
        }
        let key = event.paths[0].clone();
        assert(key@ == event@.paths[0]);
        let deadline: u64 = if self.window > u64::MAX - now {
            u64::MAX
        } else {
            now + self.window
        };
        let timer = Timer { key: key.clone(), deadline };
        let found = self.find(key.as_str());
        let slot = Slot { key, payload: event, deadline };
        match found {
            Some(i) => {
                proof {
                    lemma_slot_index(self.slots@, slot.key@);
                    lemma_replace_slot(self.slots@, i as int, slot);
                }
                self.slots.set(i, slot);
            },
            None => {
                proof {
                    lemma_add_slot(self.slots@, slot);
                }
                self.slots.push(slot);
            },
        }
        Some(timer)
    }

    /// Wakes the debouncer for `key` at `now`. Where the key's deadline has
    /// passed, its pending event is handed out and the key is forgotten;
    /// otherwise nothing changes.
    pub fn expire(&mut self, key: &str, now: u64) -> (event: Option<WatchEvent>)
        requires
            old(self).wf(),
        ensures
            final(self).wf(),
            final(self)@ == expired(old(self)@, key@, now as nat),
            event is Some <==> fired(old(self)@, key@, now as nat) is Some,
            event matches Some(e) ==> Some(e@) == fired(old(self)@, key@, now as nat),
    {
        match self.find(key) {
            Some(i) => {
                proof {
                    lemma_slot_index(self.slots@, key@);
                }
                if self.slots[i].deadline <= now {
                    proof {
                        lemma_remove_slot(self.slots@, i as int);
                    }
                    let slot = self.slots.remove(i);
                    Some(slot.payload)
                } else {
                    None
                }
            },
            None => None,
        }
    }
}

} // verus!
