//! Generational-slot storage: contiguous slots addressed by stable keys.
//!
//! A key is an index paired with the generation the slot had when the value
//! was inserted.  A slot that is freed keeps its generation; reusing it bumps
//! the generation, so a stale key can never alias a new occupant.

use vstd::prelude::*;

verus! {

/// A stable handle into a [`SlotMap`]: an index paired with the generation
/// the slot had when the value was inserted.
#[derive(Clone, Copy, PartialEq, Eq, Hash, Debug, Structural)]
pub struct EntityKey {
    pub index: u32,
    pub generation: u32,
}

/// Occupancy of one storage cell.
pub enum SlotState<T> {
    Occupied(T),
    Free,
}

impl<T> SlotState<T> {
    pub open spec fn is_occupied(self) -> bool {
        match self {
            SlotState::Occupied(_) => true,
            SlotState::Free => false,
        }
    }

    pub open spec fn value(self) -> T
        recommends
            self.is_occupied(),
    {
        match self {
            SlotState::Occupied(v) => v,
            SlotState::Free => arbitrary(),
        }
    }
}

/// One storage cell: its current generation together with its occupancy.
pub struct Slot<T> {
    pub generation: u32,
    pub state: SlotState<T>,
}

/// A generational arena: values live in contiguous slots, freed slots are
/// recycled through a free list, and every handle carries the generation it
/// was issued under.
pub struct SlotMap<T> {
    pub slots: Vec<Slot<T>>,
    pub free_list: Vec<u32>,
}

impl<T> SlotMap<T> {
    /// Structural invariant: the free list points only at free slots, holds
    /// no duplicates, and the slot count stays addressable by a `u32` index.
    pub open spec fn wf(self) -> bool {
        &&& self.slots@.len() <= u32::MAX as nat
        &&& forall|j: int|
            0 <= j < self.free_list@.len() ==> (#[trigger] self.free_list@[j]) < self.slots@.len()
                && !self.slots@[self.free_list@[j] as int].state.is_occupied()
        &&& forall|j1: int, j2: int|
            0 <= j1 < self.free_list@.len() && 0 <= j2 < self.free_list@.len() && j1 != j2
                ==> self.free_list@[j1] != self.free_list@[j2]
    }

    /// A key is valid while its slot is occupied under the same generation.
    pub open spec fn valid_key(self, key: EntityKey) -> bool {
        &&& (key.index as int) < self.slots@.len()
        &&& self.slots@[key.index as int].state.is_occupied()
        &&& self.slots@[key.index as int].generation == key.generation
    }

    /// The value stored under a valid key.
    pub open spec fn at(self, key: EntityKey) -> T
        recommends
            self.valid_key(key),
    {
        self.slots@[key.index as int].state.value()
    }

    /// A key whose slot has moved past it: the generation already reached
    /// or passed the key's, and on equality the slot is free.  A retired
    /// key is invalid and, since generations only ever grow, stays so.
    pub open spec fn retired(self, key: EntityKey) -> bool {
        &&& (key.index as int) < self.slots@.len()
        &&& self.slots@[key.index as int].generation >= key.generation
        &&& self.slots@[key.index as int].generation == key.generation
            ==> !self.slots@[key.index as int].state.is_occupied()
    }

    /// The keys of the occupied slots among the first `n`, in index order.
    pub open spec fn keys_up_to(self, n: int) -> Seq<EntityKey>
        decreases n,
    {
        if n <= 0 {
            Seq::empty()
        } else if self.slots@[n - 1].state.is_occupied() {
            self.keys_up_to(n - 1).push(
                EntityKey { index: (n - 1) as u32, generation: self.slots@[n - 1].generation },
            )
        } else {
            self.keys_up_to(n - 1)
        }
    }

    /// The keys of all occupied slots, in index order.
    pub open spec fn live_keys(self) -> Seq<EntityKey> {
        self.keys_up_to(self.slots@.len() as int)
    }

    /// Creates an empty map: no slots, no free list, no valid key.
    pub fn new() -> (m: SlotMap<T>)
        ensures
            m.wf(),
            m.slots@.len() == 0,
            m.free_list@.len() == 0,
            forall|k: EntityKey| !m.valid_key(k),
    {
        SlotMap { slots: Vec::new(), free_list: Vec::new() }
    }

    /// Inserts a value, reusing a recyclable free slot (generation bumped by
    /// one) when the free list offers one, otherwise appending a fresh slot
    /// at generation zero.  The returned key is fresh: it was not valid
    /// before, and every previously valid key stays valid with its value.
    pub fn insert(&mut self, value: T) -> (k: EntityKey)
        requires
            old(self).wf(),
            old(self).slots@.len() < u32::MAX as nat,
        ensures
            final(self).wf(),
            !old(self).valid_key(k),
            final(self).valid_key(k),
            final(self).at(k) == value,
            forall|k2: EntityKey| k2 != k ==> final(self).valid_key(k2) == old(self).valid_key(k2),
            forall|k2: EntityKey|
                k2 != k && old(self).valid_key(k2) ==> final(self).at(k2) == old(self).at(k2),
            // Reuse of a freed slot: same index, generation bumped by one.
            (k.index as int) < old(self).slots@.len() ==> {
                &&& !old(self).slots@[k.index as int].state.is_occupied()
                &&& k.generation == old(self).slots@[k.index as int].generation + 1
                &&& final(self).slots@ == old(self).slots@.update(
                    k.index as int,
                    Slot { generation: k.generation, state: SlotState::Occupied(value) },
                )
            },
            // Fresh slot appended at the end, generation zero.
            (k.index as int) >= old(self).slots@.len() ==> {
                &&& k.index as int == old(self).slots@.len()
                &&& k.generation == 0
                &&& final(self).slots@ == old(self).slots@.push(
                    Slot { generation: 0, state: SlotState::Occupied(value) },
                )
            },
            old(self).free_list@.len() == 0 ==> k.index as int == old(self).slots@.len(),
            // A non-empty free list is reused, as long as any of its slots
            // has a generation left to issue; the freshest freed slot wins.
            (exists|j: int|
                0 <= j < old(self).free_list@.len() && (
                #[trigger] old(self).slots@[old(self).free_list@[j] as int]).generation
                    < u32::MAX) ==> (k.index as int) < old(self).slots@.len(),
            old(self).free_list@.len() > 0 && old(self).slots@[old(
                self,
            ).free_list@.last() as int].generation < u32::MAX ==> k.index == old(
                self,
            ).free_list@.last(),
            // The free list only ever shrinks from the back here: what is
            // left is a prefix of what was there.
            final(self).free_list@.len() <= old(self).free_list@.len(),
            final(self).free_list@ == old(self).free_list@.take(
                final(self).free_list@.len() as int,
            ),
            insert_step(*old(self), value, *final(self), k),
    {
        proof {
            assert(old(self).free_list@.take(old(self).free_list@.len() as int) =~= old(
                self,
            ).free_list@);
        }
        while self.free_list.len() > 0
            invariant
                self.wf(),
                self.slots == old(self).slots,
                self.slots@.len() < u32::MAX as nat,
                self.free_list@.len() <= old(self).free_list@.len(),
                self.free_list@ == old(self).free_list@.take(self.free_list@.len() as int),
                forall|j: int|
                    self.free_list@.len() <= j < old(self).free_list@.len() ==> (
                    #[trigger] old(self).slots@[old(self).free_list@[j] as int]).generation
                        == u32::MAX,
            decreases self.free_list@.len(),
        {
            let ghost cur = self.free_list@;
            let idx = self.free_list.pop().unwrap();
            proof {
                assert(cur == old(self).free_list@.take(cur.len() as int));
                assert(idx == old(self).free_list@[cur.len() - 1]);
                assert(self.free_list@ =~= old(self).free_list@.take(cur.len() - 1));
            }
            let i = idx as usize;
            let generation = self.slots[i].generation;
            if generation < u32::MAX {
                // Recycle this slot under the next generation.
                let k = EntityKey { index: idx, generation: generation + 1 };
                self.slots[i] = Slot {
                    generation: generation + 1,
                    state: SlotState::Occupied(value),
                };
                return k;
            }
            // The slot exhausted its generations: retire it for good by
            // dropping it from the free list, and try the next free slot.
        }
        proof {
            assert forall|j: int|
                0 <= j < old(self).free_list@.len() implies (#[trigger] old(self).slots@[old(
                self,
            ).free_list@[j] as int]).generation == u32::MAX by {}
        }
        let idx = self.slots.len() as u32;
        self.slots.push(Slot { generation: 0, state: SlotState::Occupied(value) });
        EntityKey { index: idx, generation: 0 }
    }

    /// Looks a key up.  Returns the stored value exactly when the index is in
    /// range, the slot is occupied, and the generations match; this triple
    /// check is the sole guard against stale handles.
    pub fn get(&self, key: EntityKey) -> (r: Option<&T>)
        ensures
            r.is_some() <==> self.valid_key(key),
            r.is_some() ==> *r.unwrap() == self.at(key),
    {
        let i = key.index as usize;
        if i >= self.slots.len() {
            return None;
        }
        if self.slots[i].generation != key.generation {
            return None;
        }
        match &self.slots[i].state {
            SlotState::Occupied(v) => Some(v),
            SlotState::Free => None,
        }
    }

    /// Like [`Self::get`], but hands out a mutable borrow of the occupant.
    /// Only the value behind a valid key can change; the slot layout, every
    /// generation, and the free list stay as they were.
    pub fn get_mut(&mut self, key: EntityKey) -> (r: Option<&mut T>)
        ensures
            r.is_some() <==> old(self).valid_key(key),
            !old(self).valid_key(key) ==> *final(self) == *old(self),
            old(self).valid_key(key) ==> {
                &&& *r.unwrap() == old(self).at(key)
                &&& final(self).slots@ == old(self).slots@.update(
                    key.index as int,
                    Slot {
                        generation: key.generation,
                        state: SlotState::Occupied(*final(r.unwrap())),
                    },
                )
                &&& final(self).free_list == old(self).free_list
            },
    {
        let i = key.index as usize;
        if i >= self.slots.len() {
            return None;
        }
        if self.slots[i].generation != key.generation {
            return None;
        }
        let occupied = match &self.slots[i].state {
            SlotState::Occupied(_) => true,
            SlotState::Free => false,
        };
        if !occupied {
            return None;
        }
        match &mut self.slots[i].state {
            SlotState::Occupied(v) => Some(v),
            SlotState::Free => None,
        }
    }

    /// Frees the slot under a valid key and recycles its index; a stale key
    /// is reported as not found and changes nothing.  The freed slot keeps
    /// its generation, so the removed key itself can never match again.
    pub fn remove(&mut self, key: EntityKey) -> (removed: bool)
        requires
            old(self).wf(),
        ensures
            final(self).wf(),
            removed == old(self).valid_key(key),
            !removed ==> *final(self) == *old(self),
            removed ==> {
                &&& final(self).slots@ == old(self).slots@.update(
                    key.index as int,
                    Slot { generation: key.generation, state: SlotState::Free },
                )
                &&& final(self).free_list@ == old(self).free_list@.push(key.index)
                &&& !final(self).valid_key(key)
                &&& forall|k2: EntityKey|
                    k2.index != key.index ==> final(self).valid_key(k2) == old(self).valid_key(k2)
                &&& forall|k2: EntityKey|
                    k2.index != key.index && old(self).valid_key(k2) ==> final(self).at(k2)
                        == old(self).at(k2)
            },
            remove_step(*old(self), key, *final(self)),
    {
        let i = key.index as usize;
        if i >= self.slots.len() {
            return false;
        }
        if self.slots[i].generation != key.generation {
            return false;
        }
        let occupied = match &self.slots[i].state {
            SlotState::Occupied(_) => true,
            SlotState::Free => false,
        };
        if !occupied {
            return false;
        }
        proof {
            // The slot is occupied, so the free list cannot point at it yet;
            // pushing its index keeps the free list free of duplicates.
            assert(forall|j: int|
                0 <= j < self.free_list@.len() ==> self.free_list@[j] != key.index);
        }
        self.slots[i] = Slot { generation: key.generation, state: SlotState::Free };
        self.free_list.push(key.index);
        true
    }

    /// The keys of all occupied slots, in index order.
    pub fn keys(&self) -> (ks: Vec<EntityKey>)
        requires
            self.wf(),
        ensures
            ks@ == self.live_keys(),
    {
        let mut ks: Vec<EntityKey> = Vec::new();
        let mut i: usize = 0;
        while i < self.slots.len()
            invariant
                self.wf(),
                i <= self.slots@.len(),
                ks@ == self.keys_up_to(i as int),
            decreases self.slots@.len() - i,
        {
            let occupied = match &self.slots[i].state {
                SlotState::Occupied(_) => true,
                SlotState::Free => false,
            };
            if occupied {
                ks.push(EntityKey { index: i as u32, generation: self.slots[i].generation });
            }
            i += 1;
        }
        ks
    }
}

/// One operation of a slot map history.
pub enum SlotMapOp<T> {
    Insert(T),
    Remove(EntityKey),
}

/// Exactly what one call of [`SlotMap::insert`] guarantees at the slot
/// level: either a freed slot is recycled one generation up, or a fresh
/// slot is appended at generation zero.
pub open spec fn insert_step<T>(pre: SlotMap<T>, v: T, post: SlotMap<T>, k: EntityKey) -> bool {
    ||| {
        &&& (k.index as int) < pre.slots@.len()
        &&& !pre.slots@[k.index as int].state.is_occupied()
        &&& k.generation == pre.slots@[k.index as int].generation + 1
        &&& post.slots@ == pre.slots@.update(
            k.index as int,
            Slot { generation: k.generation, state: SlotState::Occupied(v) },
        )
    }
    ||| {
        &&& k.index as int == pre.slots@.len()
        &&& k.generation == 0
        &&& post.slots@ == pre.slots@.push(Slot { generation: 0, state: SlotState::Occupied(v) })
    }
}

/// Exactly what one call of [`SlotMap::remove`] guarantees at the slot
/// level: a valid key's slot is freed under its generation, a stale key
/// changes nothing.
pub open spec fn remove_step<T>(pre: SlotMap<T>, key: EntityKey, post: SlotMap<T>) -> bool {
    if pre.valid_key(key) {
        post.slots@ == pre.slots@.update(
            key.index as int,
            Slot { generation: key.generation, state: SlotState::Free },
        )
    } else {
        post.slots@ == pre.slots@
    }
}

/// One step of a history, as the contracts of `insert` and `remove` state
/// it; an insert reports the key it issued.
pub open spec fn op_step<T>(
    pre: SlotMap<T>,
    op: SlotMapOp<T>,
    post: SlotMap<T>,
    issued: Option<EntityKey>,
) -> bool {
    match op {
        SlotMapOp::Insert(v) => issued is Some && insert_step(pre, v, post, issued->Some_0),
        SlotMapOp::Remove(key) => issued is None && remove_step(pre, key, post),
    }
}

/// The key was issued by the insert at position `i` of the history.
pub open spec fn issued_at<T>(
    ops: Seq<SlotMapOp<T>>,
    issued: Seq<Option<EntityKey>>,
    k: EntityKey,
    i: int,
) -> bool {
    0 <= i < issued.len() && issued[i] == Some(k)
}

/// Some later operation of the history asked to remove the key.
pub open spec fn removed_after<T>(ops: Seq<SlotMapOp<T>>, k: EntityKey, i: int) -> bool {
    exists|j: int| i < j < ops.len() && ops[j] == SlotMapOp::<T>::Remove(k)
}

/// Law: over any history of inserts and removes started from the empty
/// map -- each step guaranteed by the corresponding contract -- a key is
/// valid at the end exactly when some insert issued it and no later
/// operation asked to remove it.  With the contract of [`SlotMap::get`],
/// this is the whole lookup discipline: `get(key)` answers `Some` exactly
/// for the keys that were handed out and never given back, stale and
/// recycled handles miss.
pub proof fn lemma_get_characterizes_history<T>(
    states: Seq<SlotMap<T>>,
    ops: Seq<SlotMapOp<T>>,
    issued: Seq<Option<EntityKey>>,
    k: EntityKey,
)
    requires
        states.len() == ops.len() + 1,
        issued.len() == ops.len(),
        states[0].slots@.len() == 0,
        forall|i: int| 0 <= i < ops.len() ==> op_step(states[i], ops[i], states[i + 1], issued[i]),
    ensures
        states.last().valid_key(k) <==> exists|i: int|
            issued_at(ops, issued, k, i) && !removed_after(ops, k, i),
    decreases ops.len(),
{
    let n = ops.len() as int;
    if n == 0 {
        assert(!states.last().valid_key(k));
        assert forall|i: int| !(issued_at(ops, issued, k, i) && !removed_after(ops, k, i)) by {}
        return ;
    }
    let states2 = states.drop_last();
    let ops2 = ops.drop_last();
    let issued2 = issued.drop_last();
    assert forall|i: int| 0 <= i < ops2.len() implies op_step(
        states2[i],
        ops2[i],
        states2[i + 1],
        issued2[i],
    ) by {
        assert(states2[i] == states[i]);
        assert(states2[i + 1] == states[i + 1]);
        assert(ops2[i] == ops[i]);
        assert(issued2[i] == issued[i]);
    }
    lemma_get_characterizes_history(states2, ops2, issued2, k);
    let pre = states[n - 1];
    let post = states[n];
    assert(states2.last() == pre);
    assert(states.last() == post);
    assert(op_step(pre, ops[n - 1], post, issued[n - 1]));
    let was = exists|i: int| issued_at(ops2, issued2, k, i) && !removed_after(ops2, k, i);
    match ops[n - 1] {
        SlotMapOp::Insert(v) => {
            let kn = issued[n - 1]->Some_0;
            if k == kn {
                // The final insert issued this very key: it is valid now,
                // and the issue at the last position has nothing after it.
                assert(post.valid_key(k));
                assert(issued_at(ops, issued, k, n - 1));
                assert(!removed_after(ops, k, n - 1));
            } else {
                // Another key: the insert leaves its validity alone, and
                // the final operation is no remove of it.
                assert(post.valid_key(k) == pre.valid_key(k)) by {
                    if (k.index as int) < pre.slots@.len() && k.index == kn.index {
                        assert(post.slots@[k.index as int].generation == kn.generation);
                    }
                }
                assert((exists|i: int|
                    issued_at(ops, issued, k, i) && !removed_after(ops, k, i)) == was) by {
                    if was {
                        let i = choose|i: int|
                            issued_at(ops2, issued2, k, i) && !removed_after(ops2, k, i);
                        assert(issued_at(ops, issued, k, i));
                        assert(!removed_after(ops, k, i)) by {
                            if removed_after(ops, k, i) {
                                let j = choose|j: int|
                                    i < j < ops.len() && ops[j] == SlotMapOp::<T>::Remove(k);
                                assert(j < ops2.len());
                                assert(ops2[j] == ops[j]);
                            }
                        }
                    }
                    if exists|i: int| issued_at(ops, issued, k, i) && !removed_after(ops, k, i) {
                        let i = choose|i: int|
                            issued_at(ops, issued, k, i) && !removed_after(ops, k, i);
                        assert(i < n - 1) by {
                            if i == n - 1 {
                                assert(issued[n - 1] == Some(k));
                            }
                        }
                        assert(issued_at(ops2, issued2, k, i));
                        assert(!removed_after(ops2, k, i)) by {
                            if removed_after(ops2, k, i) {
                                let j = choose|j: int|
                                    i < j < ops2.len() && ops2[j] == SlotMapOp::<T>::Remove(k);
                                assert(ops[j] == SlotMapOp::<T>::Remove(k));
                            }
                        }
                    }
                }
            }
        },
        SlotMapOp::Remove(key) => {
            if k == key {
                // Whatever its earlier life, the final operation asked to
                // remove this key, so no issue is without a later remove,
                // and the key cannot be valid now.
                assert(!post.valid_key(k)) by {
                    if pre.valid_key(key) {
                        assert(post.slots@[key.index as int].generation == key.generation);
                    }
                }
                assert forall|i: int|
                    !(issued_at(ops, issued, k, i) && !removed_after(ops, k, i)) by {
                    if issued_at(ops, issued, k, i) {
                        assert(i < n - 1) by {
                            if i == n - 1 {
                                assert(issued[n - 1] is None);
                            }
                        }
                        assert(ops[n - 1] == SlotMapOp::<T>::Remove(k));
                        assert(removed_after(ops, k, i));
                    }
                }
            } else {
                // Another key: removing `key` leaves its validity alone,
                // and the final operation is no remove of it.
                assert(post.valid_key(k) == pre.valid_key(k)) by {
                    if pre.valid_key(key) && (k.index as int) < pre.slots@.len() && k.index
                        == key.index {
                        assert(pre.slots@[key.index as int].generation == key.generation);
                        assert(post.slots@[k.index as int].generation == key.generation);
                    }
                }
                assert((exists|i: int|
                    issued_at(ops, issued, k, i) && !removed_after(ops, k, i)) == was) by {
                    if was {
                        let i = choose|i: int|
                            issued_at(ops2, issued2, k, i) && !removed_after(ops2, k, i);
                        assert(issued_at(ops, issued, k, i));
                        assert(!removed_after(ops, k, i)) by {
                            if removed_after(ops, k, i) {
                                let j = choose|j: int|
                                    i < j < ops.len() && ops[j] == SlotMapOp::<T>::Remove(k);
                                assert(j < ops2.len()) by {
                                    if j == n - 1 {
                                        assert(ops[n - 1] == SlotMapOp::<T>::Remove(key));
                                    }
                                }
                                assert(ops2[j] == ops[j]);
                            }
                        }
                    }
                    if exists|i: int| issued_at(ops, issued, k, i) && !removed_after(ops, k, i) {
                        let i = choose|i: int|
                            issued_at(ops, issued, k, i) && !removed_after(ops, k, i);
                        assert(i < n - 1) by {
                            if i == n - 1 {
                                assert(issued[n - 1] is None);
                            }
                        }
                        assert(issued_at(ops2, issued2, k, i));
                        assert(!removed_after(ops2, k, i)) by {
                            if removed_after(ops2, k, i) {
                                let j = choose|j: int|
                                    i < j < ops2.len() && ops2[j] == SlotMapOp::<T>::Remove(k);
                                assert(ops[j] == SlotMapOp::<T>::Remove(k));
                            }
                        }
                    }
                }
            }
        },
    }
}

/// Law: after `remove(k)` frees a valid key's slot and a later `insert`
/// lands on the same index, the new key sits one generation above the old
/// one, the stale key misses, and the new key yields the new value.
///
/// The premises are exactly what [`SlotMap::remove`] ensures for a valid
/// key and what [`SlotMap::insert`] ensures when it reuses a freed slot.
pub proof fn lemma_reuse_bumps_generation<T>(
    pre: SlotMap<T>,
    mid: SlotMap<T>,
    post: SlotMap<T>,
    k: EntityKey,
    k2: EntityKey,
    v2: T,
)
    requires
        pre.valid_key(k),
        mid.slots@ == pre.slots@.update(
            k.index as int,
            Slot { generation: k.generation, state: SlotState::<T>::Free },
        ),
        k2.index == k.index,
        (k2.index as int) < mid.slots@.len(),
        k2.generation == mid.slots@[k2.index as int].generation + 1,
        post.valid_key(k2),
        post.at(k2) == v2,
        forall|k3: EntityKey| k3 != k2 ==> post.valid_key(k3) == mid.valid_key(k3),
    ensures
        k2.generation == k.generation + 1,
        !post.valid_key(k),
        post.valid_key(k2),
        post.at(k2) == v2,
{
    assert(mid.slots@[k.index as int].generation == k.generation);
    assert(!mid.valid_key(k));
}

/// Law: a key issued by `insert` was not valid before the insertion, so no
/// live handle is ever aliased, and the stored value answers to the new key.
///
/// The premises are exactly what [`SlotMap::insert`] ensures.
pub proof fn lemma_inserted_key_is_fresh<T>(
    pre: SlotMap<T>,
    post: SlotMap<T>,
    k: EntityKey,
    v: T,
)
    requires
        !pre.valid_key(k),
        post.valid_key(k),
        post.at(k) == v,
        forall|k2: EntityKey| k2 != k ==> post.valid_key(k2) == pre.valid_key(k2),
        forall|k2: EntityKey| k2 != k && pre.valid_key(k2) ==> post.at(k2) == pre.at(k2),
    ensures
        forall|k2: EntityKey| pre.valid_key(k2) ==> k2 != k,
        forall|k2: EntityKey|
            pre.valid_key(k2) ==> post.valid_key(k2) && post.at(k2) == pre.at(k2),
{
}

} // verus!
