//! The finalize store: the public key/value state, changed only inside an atomic
//! batch scope.

use vstd::prelude::*;
use crate::error::{MappingError, VmError};
use crate::types::{Identifier, MappingId, ProgramId, Value};

verus! {

/// The record of one mutation that the store applied.
#[derive(Clone, Copy, Debug, PartialEq, Eq, Structural)]
pub enum FinalizeOperation {
    /// The mapping was initialized: it exists and holds nothing.
    InitializeMapping { mapping: MappingId },
    /// The key, which held nothing, holds the value.
    InsertKeyValue { mapping: MappingId, key: Value, value: Value },
    /// The key holds the value, whatever it held.
    UpdateKeyValue { mapping: MappingId, key: Value, value: Value },
    /// The key, which held a value, holds nothing.
    RemoveKeyValue { mapping: MappingId, key: Value },
    /// The mapping was removed with all that it held. No command yields this
    /// operation: only the owner of a store removes a mapping.
    RemoveMapping { mapping: MappingId },
}

/// The state of the store as a mathematical value: the mappings that were
/// initialized, and the value under each key of each of them.
pub struct StoreState {
    pub mappings: Set<MappingId>,
    pub entries: Map<(MappingId, Value), Value>,
}

impl StoreState {
    /// The state with no mapping.
    pub open spec fn empty() -> StoreState {
        StoreState { mappings: Set::empty(), entries: Map::empty() }
    }

    pub open spec fn is_initialized(self, mapping: MappingId) -> bool {
        self.mappings.contains(mapping)
    }

    /// The value under a key, if there is one.
    pub open spec fn get(self, mapping: MappingId, key: Value) -> Option<Value> {
        if self.entries.contains_key((mapping, key)) {
            Some(self.entries[(mapping, key)])
        } else {
            None
        }
    }

    /// The mapping is initialized and holds nothing.
    pub open spec fn is_empty_mapping(self, mapping: MappingId) -> bool {
        &&& self.mappings.contains(mapping)
        &&& forall|key: Value| !self.entries.contains_key((mapping, key))
    }

    /// Every entry lies in an initialized mapping.
    pub open spec fn wf(self) -> bool {
        forall|mapping: MappingId, key: Value| #[trigger]
            self.entries.contains_key((mapping, key)) ==> self.mappings.contains(mapping)
    }

    /// Reading a value: refused on a mapping that was never initialized.
    pub open spec fn read(self, mapping: MappingId, key: Value) -> Result<
        Option<Value>,
        MappingError,
    > {
        if !self.mappings.contains(mapping) {
            Err(MappingError::NotInitialized)
        } else {
            Ok(self.get(mapping, key))
        }
    }

    /// Initializing a mapping: refused if it is initialized already.
    pub open spec fn initialize(self, mapping: MappingId) -> Result<StoreState, MappingError> {
        if self.mappings.contains(mapping) {
            Err(MappingError::AlreadyInitialized)
        } else {
            Ok(StoreState { mappings: self.mappings.insert(mapping), entries: self.entries })
        }
    }

    /// Removing a mapping with all that it holds: refused if it was never
    /// initialized.
    pub open spec fn remove_mapping(self, mapping: MappingId) -> Result<StoreState, MappingError> {
        if !self.mappings.contains(mapping) {
            Err(MappingError::NotInitialized)
        } else {
            Ok(
                StoreState {
                    mappings: self.mappings.remove(mapping),
                    entries: Map::new(
                        |slot: (MappingId, Value)|
                            self.entries.contains_key(slot) && slot.0 != mapping,
                        |slot: (MappingId, Value)| self.entries[slot],
                    ),
                },
            )
        }
    }

    /// Inserting under a new key: refused if the key holds a value already.
    pub open spec fn insert(self, mapping: MappingId, key: Value, value: Value) -> Result<
        StoreState,
        MappingError,
    > {
        if !self.mappings.contains(mapping) {
            Err(MappingError::NotInitialized)
        } else if self.entries.contains_key((mapping, key)) {
            Err(MappingError::KeyExists)
        } else {
            Ok(
                StoreState {
                    mappings: self.mappings,
                    entries: self.entries.insert((mapping, key), value),
                },
            )
        }
    }

    /// Setting the value under a key, whether or not the key held one.
    pub open spec fn update(self, mapping: MappingId, key: Value, value: Value) -> Result<
        StoreState,
        MappingError,
    > {
        if !self.mappings.contains(mapping) {
            Err(MappingError::NotInitialized)
        } else {
            Ok(
                StoreState {
                    mappings: self.mappings,
                    entries: self.entries.insert((mapping, key), value),
                },
            )
        }
    }

    /// Removing a key: refused if the key holds no value.
    pub open spec fn remove(self, mapping: MappingId, key: Value) -> Result<
        StoreState,
        MappingError,
    > {
        if !self.mappings.contains(mapping) {
            Err(MappingError::NotInitialized)
        } else if !self.entries.contains_key((mapping, key)) {
            Err(MappingError::KeyNotFound)
        } else {
            Ok(
                StoreState {
                    mappings: self.mappings,
                    entries: self.entries.remove((mapping, key)),
                },
            )
        }
    }
}

/// One key/value pair of one mapping.
#[derive(Clone, Copy, Debug)]
struct Entry {
    mapping: MappingId,
    key: Value,
    value: Value,
}

/// The tables that hold one state of the store.
#[derive(Debug)]
struct Tables {
    mappings: Vec<MappingId>,
    entries: Vec<Entry>,
}

spec fn slots(entries: Seq<Entry>) -> Seq<(MappingId, Value)> {
    entries.map_values(|e: Entry| (e.mapping, e.key))
}

spec fn entries_map(entries: Seq<Entry>) -> Map<(MappingId, Value), Value> {
    Map::new(
        |slot: (MappingId, Value)| slots(entries).contains(slot),
        |slot: (MappingId, Value)| entries[slots(entries).index_of(slot)].value,
    )
}

proof fn lemma_entry_at(entries: Seq<Entry>, i: int)
    requires
        slots(entries).no_duplicates(),
        0 <= i < entries.len(),
    ensures
        entries_map(entries).contains_key((entries[i].mapping, entries[i].key)),
        entries_map(entries)[(entries[i].mapping, entries[i].key)] == entries[i].value,
{
    let slot = (entries[i].mapping, entries[i].key);
    assert(slots(entries)[i] == slot);
    assert(slots(entries).contains(slot));
    let j = slots(entries).index_of(slot);
    assert(0 <= j < slots(entries).len() && slots(entries)[j] == slot);
    assert(j == i);
}

proof fn lemma_entries_push(entries: Seq<Entry>, e: Entry)
    requires
        slots(entries).no_duplicates(),
        !slots(entries).contains((e.mapping, e.key)),
    ensures
        slots(entries.push(e)).no_duplicates(),
        entries_map(entries.push(e)) == entries_map(entries).insert((e.mapping, e.key), e.value),
{
    let after = entries.push(e);
    let n = entries.len() as int;
    assert(slots(after) =~= slots(entries).push((e.mapping, e.key)));
    assert forall|i: int, j: int|
        0 <= i < slots(after).len() && 0 <= j < slots(after).len() && i != j implies slots(
        after,
    )[i] != slots(after)[j] by {
        if i < n && j < n {
            assert(slots(entries)[i] != slots(entries)[j]);
        } else if i < n {
            assert(slots(entries)[i] == slots(after)[i]);
        } else {
            assert(slots(entries)[j] == slots(after)[j]);
        }
    }
    let lhs = entries_map(after);
    let rhs = entries_map(entries).insert((e.mapping, e.key), e.value);
    assert forall|slot: (MappingId, Value)| lhs.contains_key(slot) <==> rhs.contains_key(
        slot,
    ) by {
        if slots(after).contains(slot) {
            let i = choose|i: int| 0 <= i < slots(after).len() && slots(after)[i] == slot;
            if i < n {
                assert(slots(entries)[i] == slot);
            }
        }
        if slots(entries).contains(slot) {
            let i = choose|i: int| 0 <= i < slots(entries).len() && slots(entries)[i] == slot;
            assert(slots(after)[i] == slot);
        }
        if slot == (e.mapping, e.key) {
            assert(slots(after)[n] == slot);
        }
    }
    assert forall|slot: (MappingId, Value)| lhs.contains_key(slot) implies lhs[slot] == rhs[slot] by {
        let i = choose|i: int| 0 <= i < slots(after).len() && slots(after)[i] == slot;
        lemma_entry_at(after, i);
        if i < n {
            assert(slots(entries)[i] == slot);
            lemma_entry_at(entries, i);
        }
    }
    assert(lhs =~= rhs);
}

proof fn lemma_entries_update(entries: Seq<Entry>, i: int, e: Entry)
    requires
        slots(entries).no_duplicates(),
        0 <= i < entries.len(),
        e.mapping == entries[i].mapping,
        e.key == entries[i].key,
    ensures
        slots(entries.update(i, e)) == slots(entries),
        entries_map(entries.update(i, e)) == entries_map(entries).insert(
            (e.mapping, e.key),
            e.value,
        ),
{
    let after = entries.update(i, e);
    assert(slots(after) =~= slots(entries));
    let lhs = entries_map(after);
    let rhs = entries_map(entries).insert((e.mapping, e.key), e.value);
    assert(slots(entries)[i] == (e.mapping, e.key));
    assert forall|slot: (MappingId, Value)| lhs.contains_key(slot) implies lhs[slot] == rhs[slot] by {
        let j = choose|j: int| 0 <= j < slots(after).len() && slots(after)[j] == slot;
        lemma_entry_at(after, j);
        lemma_entry_at(entries, j);
    }
    assert(lhs =~= rhs);
}

proof fn lemma_entries_remove(entries: Seq<Entry>, i: int)
    requires
        slots(entries).no_duplicates(),
        0 <= i < entries.len(),
    ensures
        slots(entries.remove(i)).no_duplicates(),
        entries_map(entries.remove(i)) == entries_map(entries).remove(
            (entries[i].mapping, entries[i].key),
        ),
{
    let after = entries.remove(i);
    let gone = (entries[i].mapping, entries[i].key);
    assert(slots(after) =~= slots(entries).remove(i));
    assert forall|a: int, b: int|
        0 <= a < slots(after).len() && 0 <= b < slots(after).len() && a != b implies slots(
        after,
    )[a] != slots(after)[b] by {
        let a0 = if a < i { a } else { a + 1 };
        let b0 = if b < i { b } else { b + 1 };
        assert(slots(after)[a] == slots(entries)[a0]);
        assert(slots(after)[b] == slots(entries)[b0]);
    }
    let lhs = entries_map(after);
    let rhs = entries_map(entries).remove(gone);
    assert(slots(entries)[i] == gone);
    assert forall|slot: (MappingId, Value)| lhs.contains_key(slot) <==> rhs.contains_key(
        slot,
    ) by {
        if slots(after).contains(slot) {
            let a = choose|a: int| 0 <= a < slots(after).len() && slots(after)[a] == slot;
            let a0 = if a < i { a } else { a + 1 };
            assert(slots(entries)[a0] == slot);
            assert(slots(entries)[a0] != slots(entries)[i]);
        }
        if slots(entries).contains(slot) && slot != gone {
            let a0 = choose|a0: int| 0 <= a0 < slots(entries).len() && slots(entries)[a0] == slot;
            let a = if a0 < i { a0 } else { a0 - 1 };
            assert(slots(after)[a] == slot);
        }
    }
    assert forall|slot: (MappingId, Value)| lhs.contains_key(slot) implies lhs[slot] == rhs[slot] by {
        let a = choose|a: int| 0 <= a < slots(after).len() && slots(after)[a] == slot;
        let a0 = if a < i { a } else { a + 1 };
        lemma_entry_at(after, a);
        assert(slots(entries)[a0] == slot);
        lemma_entry_at(entries, a0);
    }
    assert(lhs =~= rhs);
}

impl Tables {
    spec fn wf(&self) -> bool {
        &&& self.mappings@.no_duplicates()
        &&& slots(self.entries@).no_duplicates()
        &&& forall|i: int|
            0 <= i < self.entries@.len() ==> self.mappings@.contains(
                (#[trigger] self.entries@[i]).mapping,
            )
    }

    spec fn state(&self) -> StoreState {
        StoreState { mappings: self.mappings@.to_set(), entries: entries_map(self.entries@) }
    }

    proof fn lemma_state_wf(&self)
        requires
            self.wf(),
        ensures
            self.state().wf(),
    {
        assert forall|mapping: MappingId, key: Value| #[trigger]
            self.state().entries.contains_key((mapping, key)) implies self.state().mappings.contains(
            mapping,
        ) by {
            let s = slots(self.entries@);
            let i = choose|i: int| 0 <= i < s.len() && s[i] == (mapping, key);
            assert(self.entries@[i].mapping == mapping);
        }
    }

    fn new() -> (t: Tables)
        ensures
            t.wf(),
            t.state() == StoreState::empty(),
    {
        let t = Tables { mappings: Vec::new(), entries: Vec::new() };
        assert(t.state().mappings =~= Set::empty());
        assert(t.state().entries =~= Map::empty());
        t
    }

    fn copy(&self) -> (t: Tables)
        ensures
            t.mappings@ == self.mappings@,
            t.entries@ == self.entries@,
    {
        let mut mappings: Vec<MappingId> = Vec::new();
        let mut i: usize = 0;
        while i < self.mappings.len()
            invariant
                i <= self.mappings.len(),
                mappings@ == self.mappings@.subrange(0, i as int),
            decreases self.mappings.len() - i,
        {
            mappings.push(self.mappings[i]);
            i += 1;
        }
        let mut entries: Vec<Entry> = Vec::new();
        let mut j: usize = 0;
        while j < self.entries.len()
            invariant
                j <= self.entries.len(),
                entries@ == self.entries@.subrange(0, j as int),
            decreases self.entries.len() - j,
        {
            entries.push(self.entries[j]);
            j += 1;
        }
        Tables { mappings, entries }
    }

    /// The tables without a mapping, which they hold at `position`, and
    /// without its entries.
    fn without(&self, mapping: MappingId, position: usize) -> (t: Tables)
        requires
            self.wf(),
            position < self.mappings@.len(),
            self.mappings@[position as int] == mapping,
        ensures
            t.wf(),
            self.state().remove_mapping(mapping) == Ok::<StoreState, MappingError>(t.state()),
    {
        let mut mappings: Vec<MappingId> = Vec::new();
        let mut i: usize = 0;
        while i < self.mappings.len()
            invariant
                i <= self.mappings.len(),
                position < self.mappings@.len(),
                mappings@ == if i <= position {
                    self.mappings@.subrange(0, i as int)
                } else {
                    self.mappings@.remove(position as int).subrange(0, i - 1)
                },
            decreases self.mappings.len() - i,
        {
            if i != position {
                mappings.push(self.mappings[i]);
            }
            i += 1;
            proof {
                let all = self.mappings@;
                if i <= position {
                    assert(mappings@ =~= all.subrange(0, i as int));
                } else {
                    assert(mappings@ =~= all.remove(position as int).subrange(0, i - 1));
                }
            }
        }
        let mut entries: Vec<Entry> = Vec::new();
        let ghost mut origin: Seq<int> = Seq::empty();
        let mut j: usize = 0;
        while j < self.entries.len()
            invariant
                j <= self.entries.len(),
                origin.len() == entries@.len(),
                forall|k: int|
                    0 <= k < origin.len() ==> 0 <= #[trigger] origin[k] < j && entries@[k]
                        == self.entries@[origin[k]] && entries@[k].mapping != mapping,
                forall|k: int, l: int| 0 <= k < l < origin.len() ==> origin[k] < origin[l],
                forall|m: int|
                    0 <= m < j && (#[trigger] self.entries@[m]).mapping != mapping ==> exists|k: int|
                        0 <= k < origin.len() && #[trigger] origin[k] == m,
            decreases self.entries.len() - j,
        {
            if self.entries[j].mapping != mapping {
                entries.push(self.entries[j]);
                proof {
                    let before = origin;
                    origin = origin.push(j as int);
                    assert forall|m: int|
                        0 <= m < j + 1 && (#[trigger] self.entries@[m]).mapping
                            != mapping implies exists|k: int|
                        0 <= k < origin.len() && #[trigger] origin[k] == m by {
                        if m < j {
                            let k = choose|k: int| 0 <= k < before.len() && #[trigger] before[k] == m;
                            assert(origin[k] == m);
                        } else {
                            assert(origin[before.len() as int] == m);
                        }
                    }
                }
            }
            j += 1;
        }
        let t = Tables { mappings, entries };
        proof {
            let all = self.mappings@;
            let old_entries = self.entries@;
            assert(t.mappings@ =~= all.remove(position as int)) by {
                assert(all.remove(position as int).subrange(0, all.len() - 1) =~= all.remove(
                    position as int,
                ));
            }
            // No mapping occurs twice, and the one that left is gone.
            assert forall|a: int, b: int|
                0 <= a < t.mappings@.len() && 0 <= b < t.mappings@.len() && a
                    != b implies t.mappings@[a] != t.mappings@[b] by {
                let a0 = if a < position { a } else { a + 1 };
                let b0 = if b < position { b } else { b + 1 };
                assert(t.mappings@[a] == all[a0] && t.mappings@[b] == all[b0]);
            }
            assert forall|m: MappingId| t.mappings@.contains(m) <==> (all.contains(m) && m
                != mapping) by {
                if t.mappings@.contains(m) {
                    let a = choose|a: int| 0 <= a < t.mappings@.len() && t.mappings@[a] == m;
                    let a0 = if a < position { a } else { a + 1 };
                    assert(all[a0] == m);
                    assert(all[a0] != all[position as int]);
                }
                if all.contains(m) && m != mapping {
                    let a0 = choose|a0: int| 0 <= a0 < all.len() && all[a0] == m;
                    let a = if a0 < position { a0 } else { a0 - 1 };
                    assert(t.mappings@[a] == m);
                }
            }
            assert(t.mappings@.to_set() =~= all.to_set().remove(mapping));
            // No slot occurs twice among the entries that stay.
            assert forall|a: int, b: int|
                0 <= a < slots(t.entries@).len() && 0 <= b < slots(t.entries@).len() && a
                    != b implies slots(t.entries@)[a] != slots(t.entries@)[b] by {
                assert(slots(t.entries@)[a] == slots(old_entries)[origin[a]]);
                assert(slots(t.entries@)[b] == slots(old_entries)[origin[b]]);
                if a < b {
                    assert(origin[a] < origin[b]);
                } else {
                    assert(origin[b] < origin[a]);
                }
            }
            assert forall|k: int| 0 <= k < t.entries@.len() implies t.mappings@.contains(
                (#[trigger] t.entries@[k]).mapping,
            ) by {
                assert(t.entries@[k] == old_entries[origin[k]]);
                assert(all.contains(old_entries[origin[k]].mapping));
            }
            let lhs = entries_map(t.entries@);
            let rhs = self.state().remove_mapping(mapping)->Ok_0.entries;
            assert(all.contains(mapping));
            assert forall|slot: (MappingId, Value)| lhs.contains_key(slot) <==> rhs.contains_key(
                slot,
            ) by {
                if slots(t.entries@).contains(slot) {
                    let k = choose|k: int|
                        0 <= k < slots(t.entries@).len() && slots(t.entries@)[k] == slot;
                    assert(t.entries@[k] == old_entries[origin[k]]);
                    assert(slots(old_entries)[origin[k]] == slot);
                }
                if slots(old_entries).contains(slot) && slot.0 != mapping {
                    let m = choose|m: int|
                        0 <= m < slots(old_entries).len() && slots(old_entries)[m] == slot;
                    assert(old_entries[m].mapping != mapping);
                    let k = choose|k: int| 0 <= k < origin.len() && #[trigger] origin[k] == m;
                    assert(slots(t.entries@)[k] == slot);
                }
            }
            assert forall|slot: (MappingId, Value)| lhs.contains_key(slot) implies lhs[slot]
                == rhs[slot] by {
                let k = choose|k: int|
                    0 <= k < slots(t.entries@).len() && slots(t.entries@)[k] == slot;
                lemma_entry_at(t.entries@, k);
                assert(t.entries@[k] == old_entries[origin[k]]);
                lemma_entry_at(old_entries, origin[k]);
            }
            assert(lhs =~= rhs);
        }
        t
    }

    /// Where the tables hold a mapping.
    fn position(&self, mapping: MappingId) -> (r: Option<usize>)
        ensures
            match r {
                Some(i) => i < self.mappings@.len() && self.mappings@[i as int] == mapping,
                None => !self.mappings@.contains(mapping),
            },
    {
        let mut i: usize = 0;
        while i < self.mappings.len()
            invariant
                i <= self.mappings.len(),
                forall|k: int| 0 <= k < i ==> self.mappings@[k] != mapping,
            decreases self.mappings.len() - i,
        {
            if self.mappings[i] == mapping {
                return Some(i);
            }
            i += 1;
        }
        None
    }

    fn has_mapping(&self, mapping: MappingId) -> (b: bool)
        ensures
            b == self.mappings@.contains(mapping),
    {
        let mut i: usize = 0;
        while i < self.mappings.len()
            invariant
                i <= self.mappings.len(),
                forall|k: int| 0 <= k < i ==> self.mappings@[k] != mapping,
            decreases self.mappings.len() - i,
        {
            if self.mappings[i] == mapping {
                return true;
            }
            i += 1;
        }
        false
    }

    fn read(&self, mapping: MappingId, key: Value) -> (r: Result<Option<Value>, MappingError>)
        requires
            self.wf(),
        ensures
            r == self.state().read(mapping, key),
    {
        if !self.has_mapping(mapping) {
            return Err(MappingError::NotInitialized);
        }
        match self.find(mapping, key) {
            Some(i) => {
                proof {
                    lemma_entry_at(self.entries@, i as int);
                }
                Ok(Some(self.entries[i].value))
            },
            None => Ok(None),
        }
    }

    fn find(&self, mapping: MappingId, key: Value) -> (r: Option<usize>)
        ensures
            match r {
                Some(i) => i < self.entries@.len() && self.entries@[i as int].mapping == mapping
                    && self.entries@[i as int].key == key,
                None => !slots(self.entries@).contains((mapping, key)),
            },
    {
        let mut i: usize = 0;
        while i < self.entries.len()
            invariant
                i <= self.entries.len(),
                forall|k: int| 0 <= k < i ==> slots(self.entries@)[k] != (mapping, key),
            decreases self.entries.len() - i,
        {
            if self.entries[i].mapping == mapping && self.entries[i].key == key {
                return Some(i);
            }
            i += 1;
        }
        None
    }
}


/// The finalize store.
///
/// It holds the committed state, which is what an observer outside sees, and,
/// while an atomic batch scope is open, a working state that the scope's
/// mutations change. Committing makes the working state the committed one;
/// aborting discards it.
#[derive(Debug)]
pub struct FinalizeStore {
    committed: Tables,
    working: Tables,
    open: bool,
}

impl FinalizeStore {
    /// The representation invariant.
    pub closed spec fn wf(&self) -> bool {
        &&& self.committed.wf()
        &&& self.open ==> self.working.wf()
    }

    /// The committed state: what is observable from outside.
    pub closed spec fn view(&self) -> StoreState {
        self.committed.state()
    }

    /// Whether an atomic batch scope is open.
    pub closed spec fn in_batch(&self) -> bool {
        self.open
    }

    /// The state that reads see and mutations change: the working state of the
    /// open scope, or the committed state when none is open.
    pub closed spec fn current(&self) -> StoreState {
        if self.open {
            self.working.state()
        } else {
            self.committed.state()
        }
    }

    /// Outside a scope the current state is the committed one, and both states
    /// keep every entry inside an initialized mapping.
    pub proof fn lemma_states(&self)
        requires
            self.wf(),
        ensures
            !self.in_batch() ==> self.current() == self@,
            self@.wf(),
            self.current().wf(),
    {
        self.committed.lemma_state_wf();
        if self.open {
            self.working.lemma_state_wf();
        }
    }

    /// A store with no mapping and no open scope.
    pub fn new() -> (store: FinalizeStore)
        ensures
            store.wf(),
            !store.in_batch(),
            store@ == StoreState::empty(),
            store.current() == StoreState::empty(),
    {
        FinalizeStore { committed: Tables::new(), working: Tables::new(), open: false }
    }

    pub fn is_in_batch(&self) -> (b: bool)
        ensures
            b == self.in_batch(),
    {
        self.open
    }

    /// Opens an atomic batch scope. Refused while one is open.
    pub fn begin(&mut self) -> (r: Result<(), VmError>)
        requires
            old(self).wf(),
        ensures
            final(self).wf(),
            final(self)@ == old(self)@,
            final(self).current() == old(self).current(),
            match r {
                Ok(_) => !old(self).in_batch() && final(self).in_batch(),
                Err(e) => old(self).in_batch() && final(self).in_batch()
                    && e == VmError::BatchAlreadyOpen,
            },
    {
        if self.open {
            return Err(VmError::BatchAlreadyOpen);
        }
        self.working = self.committed.copy();
        self.open = true;
        Ok(())
    }

    /// Closes the scope and makes its working state the committed one.
    /// Without an open scope nothing changes.
    pub fn commit(&mut self)
        requires
            old(self).wf(),
        ensures
            final(self).wf(),
            !final(self).in_batch(),
            final(self)@ == old(self).current(),
            final(self).current() == old(self).current(),
    {
        if self.open {
            self.committed = self.working.copy();
            self.open = false;
        }
    }

    /// Closes the scope and discards its working state: the store is as it was
    /// when the scope was opened.
    pub fn abort(&mut self)
        requires
            old(self).wf(),
        ensures
            final(self).wf(),
            !final(self).in_batch(),
            final(self)@ == old(self)@,
            final(self).current() == old(self)@,
    {
        self.open = false;
    }

    /// Whether the mapping is initialized in the current state.
    pub fn contains_mapping(&self, mapping: MappingId) -> (b: bool)
        requires
            self.wf(),
        ensures
            b == self.current().is_initialized(mapping),
    {
        if self.open {
            self.working.has_mapping(mapping)
        } else {
            self.committed.has_mapping(mapping)
        }
    }

    /// Reads the value under a key in the current state.
    pub fn get_value(&self, mapping: MappingId, key: Value) -> (r: Result<
        Option<Value>,
        MappingError,
    >)
        requires
            self.wf(),
        ensures
            r == self.current().read(mapping, key),
    {
        if self.open {
            self.working.read(mapping, key)
        } else {
            self.committed.read(mapping, key)
        }
    }

    /// Initializes a mapping of a program inside the open scope.
    pub fn initialize_mapping(&mut self, program_id: ProgramId, mapping_name: Identifier) -> (r:
        Result<FinalizeOperation, MappingError>)
        requires
            old(self).wf(),
        ensures
            final(self).wf(),
            final(self)@ == old(self)@,
            final(self).in_batch() == old(self).in_batch(),
            match r {
                Ok(op) => {
                    let mapping = MappingId { program: program_id, name: mapping_name };
                    &&& old(self).in_batch()
                    &&& old(self).current().initialize(mapping) == Ok::<StoreState, MappingError>(
                        final(self).current(),
                    )
                    &&& op == (FinalizeOperation::InitializeMapping { mapping })
                },
                Err(e) => {
                    &&& final(self).current() == old(self).current()
                    &&& if !old(self).in_batch() {
                        e == MappingError::NoOpenBatch
                    } else {
                        old(self).current().initialize(
                            MappingId { program: program_id, name: mapping_name },
                        ) == Err::<StoreState, MappingError>(e)
                    }
                },
            },
    {
        if !self.open {
            return Err(MappingError::NoOpenBatch);
        }
        let mapping = MappingId { program: program_id, name: mapping_name };
        if self.working.has_mapping(mapping) {
            return Err(MappingError::AlreadyInitialized);
        }
        proof {
            let ms = self.working.mappings@;
            assert(ms.push(mapping).to_set() =~= ms.to_set().insert(mapping)) by {
                assert forall|m: MappingId| ms.push(mapping).contains(m) <==> (ms.contains(m) || m
                    == mapping) by {
                    if ms.contains(m) {
                        let i = choose|i: int| 0 <= i < ms.len() && ms[i] == m;
                        assert(ms.push(mapping)[i] == m);
                    }
                    if m == mapping {
                        assert(ms.push(mapping)[ms.len() as int] == m);
                    }
                }
            }
            assert forall|i: int| 0 <= i < self.working.entries@.len() implies ms.push(
                mapping,
            ).contains((#[trigger] self.working.entries@[i]).mapping) by {
                let m = self.working.entries@[i].mapping;
                let j = choose|j: int| 0 <= j < ms.len() && ms[j] == m;
                assert(ms.push(mapping)[j] == m);
            }
        }
        self.working.mappings.push(mapping);
        Ok(FinalizeOperation::InitializeMapping { mapping })
    }

    /// Removes a mapping of a program, with all that it holds, inside the open
    /// scope.
    pub fn remove_mapping(&mut self, program_id: ProgramId, mapping_name: Identifier) -> (r: Result<
        FinalizeOperation,
        MappingError,
    >)
        requires
            old(self).wf(),
        ensures
            final(self).wf(),
            final(self)@ == old(self)@,
            final(self).in_batch() == old(self).in_batch(),
            match r {
                Ok(op) => {
                    let mapping = MappingId { program: program_id, name: mapping_name };
                    &&& old(self).in_batch()
                    &&& old(self).current().remove_mapping(mapping) == Ok::<
                        StoreState,
                        MappingError,
                    >(final(self).current())
                    &&& op == (FinalizeOperation::RemoveMapping { mapping })
                },
                Err(e) => {
                    &&& final(self).current() == old(self).current()
                    &&& if !old(self).in_batch() {
                        e == MappingError::NoOpenBatch
                    } else {
                        old(self).current().remove_mapping(
                            MappingId { program: program_id, name: mapping_name },
                        ) == Err::<StoreState, MappingError>(e)
                    }
                },
            },
    {
        if !self.open {
            return Err(MappingError::NoOpenBatch);
        }
        let mapping = MappingId { program: program_id, name: mapping_name };
        match self.working.position(mapping) {
            None => Err(MappingError::NotInitialized),
            Some(position) => {
                self.working = self.working.without(mapping, position);
                Ok(FinalizeOperation::RemoveMapping { mapping })
            },
        }
    }

    /// Inserts a value under a key that holds none, inside the open scope.
    pub fn insert_key_value(&mut self, mapping: MappingId, key: Value, value: Value) -> (r: Result<
        FinalizeOperation,
        MappingError,
    >)
        requires
            old(self).wf(),
        ensures
            final(self).wf(),
            final(self)@ == old(self)@,
            final(self).in_batch() == old(self).in_batch(),
            match r {
                Ok(op) => {
                    &&& old(self).in_batch()
                    &&& old(self).current().insert(mapping, key, value) == Ok::<
                        StoreState,
                        MappingError,
                    >(final(self).current())
                    &&& op == (FinalizeOperation::InsertKeyValue { mapping, key, value })
                },
                Err(e) => {
                    &&& final(self).current() == old(self).current()
                    &&& if !old(self).in_batch() {
                        e == MappingError::NoOpenBatch
                    } else {
                        old(self).current().insert(mapping, key, value) == Err::<
                            StoreState,
                            MappingError,
                        >(e)
                    }
                },
            },
    {
        if !self.open {
            return Err(MappingError::NoOpenBatch);
        }
        if !self.working.has_mapping(mapping) {
            return Err(MappingError::NotInitialized);
        }
        match self.working.find(mapping, key) {
            Some(i) => {
                proof {
                    lemma_entry_at(self.working.entries@, i as int);
                }
                Err(MappingError::KeyExists)
            },
            None => {
                let e = Entry { mapping, key, value };
                proof {
                    lemma_entries_push(self.working.entries@, e);
                }
                self.working.entries.push(e);
                Ok(FinalizeOperation::InsertKeyValue { mapping, key, value })
            },
        }
    }

    /// Sets the value under a key inside the open scope, whether or not the key
    /// held one.
    pub fn update_key_value(&mut self, mapping: MappingId, key: Value, value: Value) -> (r: Result<
        FinalizeOperation,
        MappingError,
    >)
        requires
            old(self).wf(),
        ensures
            final(self).wf(),
            final(self)@ == old(self)@,
            final(self).in_batch() == old(self).in_batch(),
            match r {
                Ok(op) => {
                    &&& old(self).in_batch()
                    &&& old(self).current().update(mapping, key, value) == Ok::<
                        StoreState,
                        MappingError,
                    >(final(self).current())
                    &&& op == (FinalizeOperation::UpdateKeyValue { mapping, key, value })
                },
                Err(e) => {
                    &&& final(self).current() == old(self).current()
                    &&& if !old(self).in_batch() {
                        e == MappingError::NoOpenBatch
                    } else {
                        old(self).current().update(mapping, key, value) == Err::<
                            StoreState,
                            MappingError,
                        >(e)
                    }
                },
            },
    {
        if !self.open {
            return Err(MappingError::NoOpenBatch);
        }
        if !self.working.has_mapping(mapping) {
            return Err(MappingError::NotInitialized);
        }
        let e = Entry { mapping, key, value };
        match self.working.find(mapping, key) {
            Some(i) => {
                proof {
                    lemma_entries_update(self.working.entries@, i as int, e);
                }
                self.working.entries.set(i, e);
            },
            None => {
                proof {
                    lemma_entries_push(self.working.entries@, e);
                }
                self.working.entries.push(e);
            },
        }
        Ok(FinalizeOperation::UpdateKeyValue { mapping, key, value })
    }

    /// Removes a key and its value inside the open scope.
    pub fn remove_key_value(&mut self, mapping: MappingId, key: Value) -> (r: Result<
        FinalizeOperation,
        MappingError,
    >)
        requires
            old(self).wf(),
        ensures
            final(self).wf(),
            final(self)@ == old(self)@,
            final(self).in_batch() == old(self).in_batch(),
            match r {
                Ok(op) => {
                    &&& old(self).in_batch()
                    &&& old(self).current().remove(mapping, key) == Ok::<StoreState, MappingError>(
                        final(self).current(),
                    )
                    &&& op == (FinalizeOperation::RemoveKeyValue { mapping, key })
                },
                Err(e) => {
                    &&& final(self).current() == old(self).current()
                    &&& if !old(self).in_batch() {
                        e == MappingError::NoOpenBatch
                    } else {
                        old(self).current().remove(mapping, key) == Err::<StoreState, MappingError>(
                            e,
                        )
                    }
                },
            },
    {
        if !self.open {
            return Err(MappingError::NoOpenBatch);
        }
        if !self.working.has_mapping(mapping) {
            return Err(MappingError::NotInitialized);
        }
        match self.working.find(mapping, key) {
            Some(i) => {
                proof {
                    lemma_entry_at(self.working.entries@, i as int);
                    lemma_entries_remove(self.working.entries@, i as int);
                    let es = self.working.entries@;
                    assert forall|k: int| 0 <= k < es.remove(i as int).len() implies 
                        self.working.mappings@.contains((#[trigger] es.remove(i as int)[k]).mapping) by {
                        let k0 = if k < i { k } else { k + 1 };
                        assert(es.remove(i as int)[k] == es[k0]);
                    }
                }
                self.working.entries.remove(i);
                Ok(FinalizeOperation::RemoveKeyValue { mapping, key })
            },
            None => Err(MappingError::KeyNotFound),
        }
    }
}

} // verus!
