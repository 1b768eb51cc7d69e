//! The sticky modifiers and what each of them is doing.
//!
//! The set of keys is fixed when the table is made; the entries keep the
//! order in which the keys were first named.

use crate::key_state::KeyState;
use crate::keys::KeyEvent;
use vstd::prelude::*;

verus! {

/// One sticky modifier and its state.
#[derive(Clone, Copy, Debug, PartialEq, Eq, Structural)]
pub struct ModifierEntry {
    pub key: u16,
    pub state: KeyState,
}

/// Whether no key has two entries.
pub open spec fn distinct_keys(entries: Seq<ModifierEntry>) -> bool {
    forall|i: int, j: int|
        0 <= i < j < entries.len() ==> (#[trigger] entries[i]).key != (#[trigger] entries[j]).key
}

/// The keys of the entries, in order.
pub open spec fn keys_of(entries: Seq<ModifierEntry>) -> Seq<u16> {
    Seq::new(entries.len(), |i: int| entries[i].key)
}

/// Whether `key` has an entry.
pub open spec fn has_key(entries: Seq<ModifierEntry>, key: u16) -> bool {
    exists|i: int| 0 <= i < entries.len() && (#[trigger] entries[i]).key == key
}

/// The state of `key`: that of its first entry, `Released` where it has none.
pub open spec fn state_of(entries: Seq<ModifierEntry>, key: u16) -> KeyState
    decreases entries.len(),
{
    if entries.len() == 0 {
        KeyState::Released
    } else if entries[0].key == key {
        entries[0].state
    } else {
        state_of(entries.drop_first(), key)
    }
}

/// Whether any entry is latched or locked.
pub open spec fn any_held(entries: Seq<ModifierEntry>) -> bool {
    exists|i: int| 0 <= i < entries.len() && (#[trigger] entries[i]).state.is_pressed()
}

/// Whether any entry is latched.
pub open spec fn any_latched(entries: Seq<ModifierEntry>) -> bool {
    exists|i: int| 0 <= i < entries.len() && (#[trigger] entries[i]).state is Latched
}

/// The entries after `key` was pressed at `time`.
pub open spec fn with_press(
    entries: Seq<ModifierEntry>,
    key: u16,
    time: u128,
    timeout: u128,
) -> Seq<ModifierEntry> {
    Seq::new(
        entries.len(),
        |i: int|
            if entries[i].key == key {
                ModifierEntry { key, state: entries[i].state.after_press(time, timeout) }
            } else {
                entries[i]
            },
    )
}

/// Whether a bulk release lets go of a key in `state`: of the latched ones
/// only, or of every key that is held.
pub open spec fn leaves(state: KeyState, only_latched: bool) -> bool {
    if only_latched {
        state is Latched
    } else {
        state != KeyState::Released
    }
}

/// The entries after a bulk release.
pub open spec fn let_go(entries: Seq<ModifierEntry>, only_latched: bool) -> Seq<ModifierEntry> {
    Seq::new(
        entries.len(),
        |i: int|
            if leaves(entries[i].state, only_latched) {
                ModifierEntry { key: entries[i].key, state: KeyState::Released }
            } else {
                entries[i]
            },
    )
}

/// The release events of a bulk release: one for each key let go of, in the
/// order of the entries.
pub open spec fn releases(entries: Seq<ModifierEntry>, only_latched: bool) -> Seq<KeyEvent>
    decreases entries.len(),
{
    if entries.len() == 0 {
        Seq::empty()
    } else {
        let before = releases(entries.drop_last(), only_latched);
        if leaves(entries.last().state, only_latched) {
            before.push(KeyEvent::release(entries.last().key))
        } else {
            before
        }
    }
}

/// The entries of a new table for `keys`: one released entry for each key,
/// placed where the key first occurs.
pub open spec fn fresh(keys: Seq<u16>) -> Seq<ModifierEntry>
    decreases keys.len(),
{
    if keys.len() == 0 {
        Seq::empty()
    } else {
        let before = fresh(keys.drop_last());
        if has_key(before, keys.last()) {
            before
        } else {
            before.push(ModifierEntry { key: keys.last(), state: KeyState::Released })
        }
    }
}

/// The state of a key is that of the first entry that has the key.
pub proof fn lemma_state_of_first(entries: Seq<ModifierEntry>, key: u16, at: int)
    requires
        0 <= at < entries.len(),
        entries[at].key == key,
        forall|j: int| 0 <= j < at ==> (#[trigger] entries[j]).key != key,
    ensures
        state_of(entries, key) == entries[at].state,
    decreases entries.len(),
{
    if at > 0 {
        let rest = entries.drop_first();
        assert forall|j: int| 0 <= j < at - 1 implies (#[trigger] rest[j]).key != key by {
            assert(rest[j] == entries[j + 1]);
        }
        assert(rest[at - 1] == entries[at]);
        lemma_state_of_first(rest, key, at - 1);
    }
}

/// A key without an entry counts as released.
pub proof fn lemma_state_of_absent(entries: Seq<ModifierEntry>, key: u16)
    requires
        !has_key(entries, key),
    ensures
        state_of(entries, key) == KeyState::Released,
    decreases entries.len(),
{
    if entries.len() > 0 {
        let rest = entries.drop_first();
        assert(entries[0].key != key);
        assert forall|j: int| 0 <= j < rest.len() implies (#[trigger] rest[j]).key != key by {
            assert(rest[j] == entries[j + 1]);
        }
        lemma_state_of_absent(rest, key);
    }
}

/// A new table has an entry for exactly the keys it was made for.
pub proof fn lemma_fresh_keys(keys: Seq<u16>, key: u16)
    ensures
        has_key(fresh(keys), key) <==> keys.contains(key),
    decreases keys.len(),
{
    if keys.len() > 0 {
        let shorter = keys.drop_last();
        let before = fresh(shorter);
        let after = fresh(keys);
        lemma_fresh_keys(shorter, key);
        lemma_fresh_keys(shorter, keys.last());
        if has_key(after, key) {
            let i = choose|i: int| 0 <= i < after.len() && (#[trigger] after[i]).key == key;
            if i < before.len() {
                assert(before[i].key == key);
                assert(shorter.contains(key));
                let at = choose|at: int| 0 <= at < shorter.len() && shorter[at] == key;
                assert(keys[at] == key);
            } else {
                assert(keys[keys.len() - 1] == key);
            }
        }
        if keys.contains(key) {
            let at = choose|at: int| 0 <= at < keys.len() && keys[at] == key;
            if at < shorter.len() {
                assert(shorter[at] == key);
                assert(shorter.contains(key));
            }
            if has_key(before, key) {
                let i = choose|i: int| 0 <= i < before.len() && (#[trigger] before[i]).key == key;
                assert(after[i].key == key);
            } else {
                assert(at == keys.len() - 1);
                assert(after[after.len() - 1].key == key);
            }
        }
    }
}

/// A new table holds each key once, released.
pub proof fn lemma_fresh_distinct(keys: Seq<u16>)
    ensures
        distinct_keys(fresh(keys)),
        forall|i: int|
            0 <= i < fresh(keys).len() ==> (#[trigger] fresh(keys)[i]).state
                == KeyState::Released,
    decreases keys.len(),
{
    if keys.len() > 0 {
        let before = fresh(keys.drop_last());
        let after = fresh(keys);
        lemma_fresh_distinct(keys.drop_last());
        assert forall|i: int, j: int| 0 <= i < j < after.len() implies (#[trigger] after[i]).key != (
        #[trigger] after[j]).key by {
            if j < before.len() {
                assert(after[i] == before[i] && after[j] == before[j]);
            } else {
                assert(after[i] == before[i]);
            }
        }
    }
}

/// A bulk release drops no events where there is nothing to let go of, and
/// changes no entry.
pub proof fn lemma_nothing_to_release(entries: Seq<ModifierEntry>, only_latched: bool)
    requires
        forall|i: int| 0 <= i < entries.len() ==> !leaves((#[trigger] entries[i]).state, only_latched),
    ensures
        releases(entries, only_latched) == Seq::<KeyEvent>::empty(),
        let_go(entries, only_latched) == entries,
    decreases entries.len(),
{
    assert(let_go(entries, only_latched) =~= entries);
    if entries.len() > 0 {
        let shorter = entries.drop_last();
        assert forall|i: int| 0 <= i < shorter.len() implies !leaves(
            (#[trigger] shorter[i]).state,
            only_latched,
        ) by {
            assert(shorter[i] == entries[i]);
        }
        lemma_nothing_to_release(shorter, only_latched);
    }
}

/// The modifiers that are sticky, each with its state.
#[derive(Debug)]
pub struct ModifierTable {
    entries: Vec<ModifierEntry>,
}

impl View for ModifierTable {
    type V = Seq<ModifierEntry>;

    closed spec fn view(&self) -> Seq<ModifierEntry> {
        self.entries@
    }
}

impl ModifierTable {
    /// Whether the table is well formed: no key has two entries.
    pub open spec fn wf(&self) -> bool {
        distinct_keys(self@)
    }

    /// A table in which each of `keys` is released. A key named twice gets one
    /// entry, where it was named first.
    pub fn new(keys: &Vec<u16>) -> (table: ModifierTable)
        ensures
            table@ == fresh(keys@),
            table.wf(),
            forall|key: u16| has_key(table@, key) <==> keys@.contains(key),
            forall|i: int| 0 <= i < table@.len() ==> (#[trigger] table@[i]).state == KeyState::Released,
    {
        let mut table = ModifierTable { entries: Vec::new() };
        let mut i: usize = 0;
        assert(keys@.take(0) =~= Seq::<u16>::empty());
        while i < keys.len()
            invariant
                i <= keys.len(),
                table@ == fresh(keys@.take(i as int)),
            decreases keys.len() - i,
        {
            let key = keys[i];
            proof {
                let longer = keys@.take(i + 1);
                assert(longer.drop_last() =~= keys@.take(i as int));
                assert(longer.last() == key);
            }
            if !table.is_modifier(key) {
                table.entries.push(ModifierEntry { key, state: KeyState::Released });
            }
            i += 1;
        }
        proof {
            assert(keys@.take(keys.len() as int) =~= keys@);
            lemma_fresh_distinct(keys@);
            assert forall|key: u16| has_key(table@, key) <==> keys@.contains(key) by {
                lemma_fresh_keys(keys@, key);
            }
        }
        table
    }

    /// How many modifiers the table holds.
    pub fn len(&self) -> (count: usize)
        ensures
            count == self@.len(),
    {
        self.entries.len()
    }

    /// The entry at `index`, counted in the order of the table.
    pub fn entry(&self, index: usize) -> (entry: ModifierEntry)
        requires
            index < self@.len(),
        ensures
            entry == self@[index as int],
    {
        self.entries[index]
    }

    /// Where the entry of `key` stands, if it has one.
    fn find(&self, key: u16) -> (at: Option<usize>)
        ensures
            match at {
                Some(at) => at < self@.len() && self@[at as int].key == key && forall|j: int|
                    0 <= j < at ==> (#[trigger] self@[j]).key != key,
                None => !has_key(self@, key),
            },
    {
        let mut i: usize = 0;
        while i < self.entries.len()
            invariant
                i <= self.entries.len(),
                forall|j: int| 0 <= j < i ==> (#[trigger] self@[j]).key != key,
            decreases self.entries.len() - i,
        {
            if self.entries[i].key == key {
                return Some(i);
            }
            i += 1;
        }
        None
    }

    /// Whether `key` is one of the sticky modifiers.
    pub fn is_modifier(&self, key: u16) -> (yes: bool)
        ensures
            yes == has_key(self@, key),
    {
        self.find(key).is_some()
    }

    /// The state of `key`; `Released` for a key that is no modifier.
    pub fn state(&self, key: u16) -> (state: KeyState)
        ensures
            state == state_of(self@, key),
    {
        match self.find(key) {
            Some(at) => {
                proof {
                    lemma_state_of_first(self@, key, at as int);
                }
                self.entries[at].state
            },
            None => {
                proof {
                    lemma_state_of_absent(self@, key);
                }
                KeyState::Released
            },
        }
    }

    /// Applies one press of `key` at `time` to its entry. A key that is no
    /// modifier changes nothing.
    pub fn transition_on_press(&mut self, key: u16, time: u128, timeout: u128)
        ensures
            final(self)@ == with_press(old(self)@, key, time, timeout),
            keys_of(final(self)@) == keys_of(old(self)@),
            old(self).wf() ==> final(self).wf(),
    {
        let mut i: usize = 0;
        while i < self.entries.len()
            invariant
                i <= self.entries.len(),
                self@.len() == old(self)@.len(),
                forall|j: int|
                    0 <= j < i ==> self@[j] == with_press(old(self)@, key, time, timeout)[j],
                forall|j: int| i <= j < self@.len() ==> self@[j] == old(self)@[j],
            decreases self.entries.len() - i,
        {
            let mut entry = self.entries[i];
            if entry.key == key {
                entry.state.transition(time, timeout);
                self.entries.set(i, entry);
            }
            i += 1;
        }
        assert(self@ =~= with_press(old(self)@, key, time, timeout));
        assert(keys_of(self@) =~= keys_of(old(self)@));
        assert(old(self).wf() ==> self.wf()) by {
            if old(self).wf() {
                assert forall|a: int, b: int| 0 <= a < b < self@.len() implies (#[trigger] self@[a]).key
                    != (#[trigger] self@[b]).key by {
                    assert(self@[a].key == old(self)@[a].key);
                    assert(self@[b].key == old(self)@[b].key);
                }
            }
        }
    }

    /// 1 while `key` is latched or locked, 0 otherwise.
    pub fn current_pressed_state(&self, key: u16) -> (value: i32)
        ensures
            value == state_of(self@, key).pressed_value(),
            value == 1 <==> state_of(self@, key).is_pressed(),
            value == 0 <==> !state_of(self@, key).is_pressed(),
    {
        self.state(key).pressed_state()
    }

    /// Lets go of the latched modifiers (`only_latched`) or of all that are
    /// held, and returns a release event for each, in the order of the table.
    fn release(&mut self, only_latched: bool) -> (events: Vec<KeyEvent>)
        ensures
            final(self)@ == let_go(old(self)@, only_latched),
            events@ == releases(old(self)@, only_latched),
            keys_of(final(self)@) == keys_of(old(self)@),
            old(self).wf() ==> final(self).wf(),
    {
        let mut events: Vec<KeyEvent> = Vec::new();
        let mut i: usize = 0;
        assert(old(self)@.take(0) =~= Seq::<ModifierEntry>::empty());
        while i < self.entries.len()
            invariant
                i <= self.entries.len(),
                self@.len() == old(self)@.len(),
                forall|j: int| 0 <= j < i ==> self@[j] == let_go(old(self)@, only_latched)[j],
                forall|j: int| i <= j < self@.len() ==> self@[j] == old(self)@[j],
                events@ == releases(old(self)@.take(i as int), only_latched),
            decreases self.entries.len() - i,
        {
            let entry = self.entries[i];
            let leaves = match entry.state {
                KeyState::Latched(_) => true,
                KeyState::Locked => !only_latched,
                KeyState::Released => false,
            };
            proof {
                let longer = old(self)@.take(i + 1);
                assert(longer.drop_last() =~= old(self)@.take(i as int));
                assert(longer.last() == entry);
            }
            if leaves {
                self.entries.set(i, ModifierEntry { key: entry.key, state: KeyState::Released });
                events.push(KeyEvent::new(entry.key, 0));
            }
            i += 1;
        }
        assert(old(self)@.take(i as int) =~= old(self)@);
        assert(self@ =~= let_go(old(self)@, only_latched));
        assert(keys_of(self@) =~= keys_of(old(self)@));
        assert(old(self).wf() ==> self.wf()) by {
            if old(self).wf() {
                assert forall|a: int, b: int| 0 <= a < b < self@.len() implies (#[trigger] self@[a]).key
                    != (#[trigger] self@[b]).key by {
                    assert(self@[a].key == old(self)@[a].key);
                    assert(self@[b].key == old(self)@[b].key);
                }
            }
        }
        events
    }

    /// Sets every latched modifier to `Released` and returns a release event
    /// for each, in the order of the table. Locked modifiers stay locked.
    pub fn release_all_latched(&mut self) -> (events: Vec<KeyEvent>)
        ensures
            final(self)@ == let_go(old(self)@, true),
            events@ == releases(old(self)@, true),
            keys_of(final(self)@) == keys_of(old(self)@),
            old(self).wf() ==> final(self).wf(),
            !any_latched(final(self)@),
    {
        let events = self.release(true);
        assert(!any_latched(self@)) by {
            if any_latched(self@) {
                let i = choose|i: int| 0 <= i < self@.len() && (#[trigger] self@[i]).state is Latched;
                assert(self@[i] == let_go(old(self)@, true)[i]);
            }
        }
        events
    }

    /// Sets every modifier that is latched or locked to `Released` and
    /// returns a release event for each, in the order of the table.
    pub fn clear_all(&mut self) -> (events: Vec<KeyEvent>)
        ensures
            final(self)@ == let_go(old(self)@, false),
            events@ == releases(old(self)@, false),
            keys_of(final(self)@) == keys_of(old(self)@),
            old(self).wf() ==> final(self).wf(),
            !any_held(final(self)@),
    {
        let events = self.release(false);
        assert(!any_held(self@)) by {
            if any_held(self@) {
                let i = choose|i: int| 0 <= i < self@.len() && (#[trigger] self@[i]).state.is_pressed();
                assert(self@[i] == let_go(old(self)@, false)[i]);
            }
        }
        events
    }

    /// Whether any modifier is latched or locked.
    pub fn any_pressed(&self) -> (yes: bool)
        ensures
            yes == any_held(self@),
    {
        let mut i: usize = 0;
        while i < self.entries.len()
            invariant
                i <= self.entries.len(),
                forall|j: int| 0 <= j < i ==> !(#[trigger] self@[j]).state.is_pressed(),
            decreases self.entries.len() - i,
        {
            if self.entries[i].state.pressed_state() > 0 {
                return true;
            }
            i += 1;
        }
        false
    }
}

} // verus!
