//! The world: a generational store of entities plus, per capability, an
//! ordered index of the live entities that registered it, and a queue of
//! deferred spawn/kill commands.
//!
//! Invariant: a key appears in a capability's index exactly when the live
//! entity behind it registered that capability; index order is spawn order.

use vstd::prelude::*;
use crate::capability::{Capability, CapabilityRegistry, CapabilitySet};
use crate::command::{kill_keys, KillEvent, SpawnEvent, WorldCommand};
use crate::input::Input;
use crate::slotmap::{EntityKey, SlotMap};

verus! {

/// The hooks a game object offers the dispatch protocol.  Application
/// entity types implement this; the world only ever invokes a hook whose
/// capability the entity's type registered.  A hook may ask for deferred
/// world mutation by returning commands; it can never mutate the world
/// directly, so a dispatch pass always iterates over a stable entity set.
pub trait Entity: Sized {
    /// What one render dispatch collects from an entity.
    type Task;

    /// Called once when the entity enters the world, with its fresh key.
    fn on_spawn(&mut self, key: EntityKey);

    /// Variable-step per-frame update.
    fn tick(&mut self, delta_time_micros: u64) -> Vec<WorldCommand<Self>>;

    /// Fixed-step update, called zero or more times per frame.
    fn fixed_tick(&mut self, delta_time_micros: u64) -> Vec<WorldCommand<Self>>;

    /// One polled input event; every eligible entity sees every event.
    fn input(&mut self, event: &Input) -> Vec<WorldCommand<Self>>;

    /// The entity's render tasks for this frame, in draw order.
    fn render_tasks(&mut self) -> Vec<Self::Task>;
}

/// An entity in storage, together with the tag of its concrete type.
pub struct Spawned<E> {
    pub type_id: u64,
    pub entity: E,
}

/// The entity store, the per-capability indices, the capability registry,
/// and the deferred command queue.
pub struct World<E> {
    pub entities: SlotMap<Spawned<E>>,
    pub registry: CapabilityRegistry,
    pub tick_index: Vec<EntityKey>,
    pub fixed_tick_index: Vec<EntityKey>,
    pub input_index: Vec<EntityKey>,
    pub render_index: Vec<EntityKey>,
    pub spawn_index: Vec<EntityKey>,
    pub commands: Vec<WorldCommand<E>>,
}

/// No key occurs twice.
pub open spec fn no_dup_keys(s: Seq<EntityKey>) -> bool {
    forall|p: int, q: int| 0 <= p < q < s.len() ==> s[p] != s[q]
}

/// The keys of `s` that are live in `m`, in the order of `s`.
pub open spec fn live_filter<T>(m: SlotMap<T>, s: Seq<EntityKey>) -> Seq<EntityKey>
    decreases s.len(),
{
    if s.len() == 0 {
        Seq::empty()
    } else if m.valid_key(s[0]) {
        seq![s[0]] + live_filter(m, s.skip(1))
    } else {
        live_filter(m, s.skip(1))
    }
}

/// Two stores with the same slot layout: equal lengths, generations,
/// occupancy and free lists.  Only the stored values may differ, so key
/// validity is the same on both sides.
pub open spec fn same_shape<T>(a: SlotMap<T>, b: SlotMap<T>) -> bool {
    &&& b.slots@.len() == a.slots@.len()
    &&& b.free_list == a.free_list
    &&& forall|i: int|
        0 <= i < a.slots@.len() ==> (#[trigger] b.slots@[i]).generation == a.slots@[i].generation
            && b.slots@[i].state.is_occupied() == a.slots@[i].state.is_occupied()
}

impl<E> World<E> {
    /// The index list of one capability.
    pub open spec fn index_of(self, c: Capability) -> Seq<EntityKey> {
        match c {
            Capability::Tickable => self.tick_index@,
            Capability::FixedTickable => self.fixed_tick_index@,
            Capability::Inputable => self.input_index@,
            Capability::Renderable => self.render_index@,
            Capability::Spawnable => self.spawn_index@,
        }
    }

    /// The capability set registered for the entity behind a key.
    pub open spec fn caps_at(self, k: EntityKey) -> CapabilitySet
        recommends
            self.entities.valid_key(k),
    {
        self.registry.caps_of(self.entities.at(k).type_id)
    }

    /// Well-formedness: the store is well formed, and a key stands in a
    /// capability's index exactly when it is live and its type registered
    /// that capability; no index repeats a key.
    pub open spec fn wf(self) -> bool {
        &&& self.entities.wf()
        &&& forall|c: Capability, k: EntityKey|
            #[trigger] self.index_of(c).contains(k) <==> self.entities.valid_key(k)
                && self.caps_at(k).spec_has(c)
        &&& forall|c: Capability| no_dup_keys(#[trigger] self.index_of(c))
    }
}

proof fn lemma_push_contains(s: Seq<EntityKey>, x: EntityKey, y: EntityKey)
    ensures
        s.push(x).contains(y) <==> (s.contains(y) || y == x),
{
    if s.contains(y) {
        let i = choose|i: int| 0 <= i < s.len() && s[i] == y;
        assert(s.push(x)[i] == y);
    }
    if y == x {
        assert(s.push(x)[s.len() as int] == y);
    }
    if s.push(x).contains(y) {
        let i = choose|i: int| 0 <= i < s.push(x).len() && s.push(x)[i] == y;
        if i < s.len() {
            assert(s[i] == y);
        }
    }
}

/// Appending a key to a sequence filters to the old filtering, plus the key
/// itself when it is live.
pub proof fn lemma_live_filter_snoc<T>(m: SlotMap<T>, s: Seq<EntityKey>, x: EntityKey)
    ensures
        live_filter(m, s.push(x)) == live_filter(m, s) + (if m.valid_key(x) {
            seq![x]
        } else {
            Seq::<EntityKey>::empty()
        }),
    decreases s.len(),
{
    let tail: Seq<EntityKey> = if m.valid_key(x) {
        seq![x]
    } else {
        Seq::<EntityKey>::empty()
    };
    if s.len() == 0 {
        assert(s.push(x)[0] == x);
        assert(s.push(x).skip(1) =~= Seq::<EntityKey>::empty());
        assert(live_filter(m, Seq::<EntityKey>::empty()) == Seq::<EntityKey>::empty());
        assert(live_filter(m, s.push(x)) =~= live_filter(m, s) + tail);
    } else {
        lemma_live_filter_snoc(m, s.skip(1), x);
        assert(s.push(x)[0] == s[0]);
        assert(s.push(x).skip(1) =~= s.skip(1).push(x));
        if m.valid_key(s[0]) {
            assert(live_filter(m, s.push(x)) == seq![s[0]] + live_filter(m, s.skip(1).push(x)));
            assert(seq![s[0]] + (live_filter(m, s.skip(1)) + tail) =~= (seq![s[0]] + live_filter(
                m,
                s.skip(1),
            )) + tail);
        }
    }
}

/// A live key of `s` survives the filtering.
pub proof fn lemma_live_filter_contains<T>(m: SlotMap<T>, s: Seq<EntityKey>, x: EntityKey)
    requires
        s.contains(x),
        m.valid_key(x),
    ensures
        live_filter(m, s).contains(x),
    decreases s.len(),
{
    let i = choose|i: int| 0 <= i < s.len() && s[i] == x;
    if i == 0 {
        assert(live_filter(m, s)[0] == x);
    } else {
        assert(s.skip(1)[i - 1] == x);
        lemma_live_filter_contains(m, s.skip(1), x);
        let j = choose|j: int|
            0 <= j < live_filter(m, s.skip(1)).len() && live_filter(m, s.skip(1))[j] == x;
        if m.valid_key(s[0]) {
            assert(live_filter(m, s)[j + 1] == x);
        } else {
            assert(live_filter(m, s)[j] == x);
        }
    }
}

/// Filtering by liveness keeps the relative order of live keys: two live
/// keys come out in the order they stood in.
pub proof fn lemma_live_filter_preserves_order<T>(m: SlotMap<T>, s: Seq<EntityKey>, i: int, j: int)
    requires
        0 <= i < j < s.len(),
        m.valid_key(s[i]),
        m.valid_key(s[j]),
    ensures
        exists|p: int, q: int|
            0 <= p < q < live_filter(m, s).len() && live_filter(m, s)[p] == s[i] && live_filter(
                m,
                s,
            )[q] == s[j],
    decreases s.len(),
{
    if i == 0 {
        assert(s.skip(1)[j - 1] == s[j]);
        assert(s.skip(1).contains(s[j]));
        lemma_live_filter_contains(m, s.skip(1), s[j]);
        let q0 = choose|q0: int|
            0 <= q0 < live_filter(m, s.skip(1)).len() && live_filter(m, s.skip(1))[q0] == s[j];
        assert(live_filter(m, s)[0] == s[0]);
        assert(live_filter(m, s)[q0 + 1] == s[j]);
    } else {
        assert(s.skip(1)[i - 1] == s[i]);
        assert(s.skip(1)[j - 1] == s[j]);
        lemma_live_filter_preserves_order(m, s.skip(1), i - 1, j - 1);
        let (p0, q0) = choose|p0: int, q0: int|
            0 <= p0 < q0 < live_filter(m, s.skip(1)).len() && live_filter(m, s.skip(1))[p0]
                == s[i] && live_filter(m, s.skip(1))[q0] == s[j];
        if m.valid_key(s[0]) {
            assert(live_filter(m, s)[p0 + 1] == s[i]);
            assert(live_filter(m, s)[q0 + 1] == s[j]);
        } else {
            assert(live_filter(m, s)[p0] == s[i]);
            assert(live_filter(m, s)[q0] == s[j]);
        }
    }
}

/// `s` with every occurrence of `key` dropped, order kept.
pub open spec fn removed_key(s: Seq<EntityKey>, key: EntityKey) -> Seq<EntityKey>
    decreases s.len(),
{
    if s.len() == 0 {
        Seq::empty()
    } else if s.last() == key {
        removed_key(s.drop_last(), key)
    } else {
        removed_key(s.drop_last(), key).push(s.last())
    }
}

proof fn lemma_removed_key_contains(s: Seq<EntityKey>, key: EntityKey, y: EntityKey)
    ensures
        removed_key(s, key).contains(y) <==> (s.contains(y) && y != key),
    decreases s.len(),
{
    if s.len() > 0 {
        lemma_removed_key_contains(s.drop_last(), key, y);
        assert(s.contains(y) <==> (s.drop_last().contains(y) || s.last() == y)) by {
            if s.contains(y) {
                let i = choose|i: int| 0 <= i < s.len() && s[i] == y;
                if i < s.len() - 1 {
                    assert(s.drop_last()[i] == y);
                }
            }
            if s.drop_last().contains(y) {
                let i = choose|i: int| 0 <= i < s.drop_last().len() && s.drop_last()[i] == y;
                assert(s[i] == y);
            }
            if s.last() == y {
                assert(s[s.len() - 1] == y);
            }
        }
        if s.last() != key {
            lemma_push_contains(removed_key(s.drop_last(), key), s.last(), y);
        }
    }
}

proof fn lemma_removed_key_no_dups(s: Seq<EntityKey>, key: EntityKey)
    requires
        no_dup_keys(s),
    ensures
        no_dup_keys(removed_key(s, key)),
    decreases s.len(),
{
    if s.len() > 0 {
        assert(no_dup_keys(s.drop_last())) by {
            assert forall|p: int, q: int|
                0 <= p < q < s.drop_last().len() implies s.drop_last()[p] != s.drop_last()[q] by {
                assert(s[p] == s.drop_last()[p]);
                assert(s[q] == s.drop_last()[q]);
            }
        }
        lemma_removed_key_no_dups(s.drop_last(), key);
        if s.last() != key {
            assert(!s.drop_last().contains(s.last())) by {
                if s.drop_last().contains(s.last()) {
                    let i = choose|i: int|
                        0 <= i < s.drop_last().len() && s.drop_last()[i] == s.last();
                    assert(s[i] == s[s.len() - 1]);
                }
            }
            lemma_removed_key_contains(s.drop_last(), key, s.last());
            let r = removed_key(s.drop_last(), key);
            assert forall|p: int, q: int|
                0 <= p < q < r.push(s.last()).len() implies r.push(s.last())[p] != r.push(
                s.last(),
            )[q] by {
                if q == r.len() {
                    assert(r.push(s.last())[p] == r[p]);
                    if r[p] == s.last() {
                        assert(r.contains(s.last()));
                    }
                }
            }
        }
    }
}

/// Drops every occurrence of a key from an index list, keeping the order
/// of what stays.
fn remove_key_from_index(v: &mut Vec<EntityKey>, key: EntityKey)
    ensures
        final(v)@ == removed_key(old(v)@, key),
{
    let ghost s = old(v)@;
    let mut out: Vec<EntityKey> = Vec::new();
    let mut i: usize = 0;
    while i < v.len()
        invariant
            v@ == s,
            i <= s.len(),
            out@ == removed_key(s.take(i as int), key),
        decreases s.len() - i,
    {
        let k = v[i];
        proof {
            assert(s.take((i + 1) as int).drop_last() =~= s.take(i as int));
            assert(s.take((i + 1) as int).last() == s[i as int]);
        }
        if k != key {
            out.push(k);
        }
        i += 1;
    }
    proof {
        assert(s.take(s.len() as int) =~= s);
    }
    *v = out;
}

/// Front-decomposition of the kill set of a command queue.
proof fn lemma_kill_keys_skip_front<E>(s: Seq<WorldCommand<E>>)
    requires
        s.len() > 0,
    ensures
        kill_keys(s) == (match s[0] {
            WorldCommand::Kill(ev) => kill_keys(s.skip(1)).insert(ev.entity_key),
            WorldCommand::Spawn(_) => kill_keys(s.skip(1)),
        }),
    decreases s.len(),
{
    if s.len() == 1 {
        assert(s.drop_last() =~= Seq::<WorldCommand<E>>::empty());
        assert(s.skip(1) =~= Seq::<WorldCommand<E>>::empty());
        assert(s.last() == s[0]);
    } else {
        lemma_kill_keys_skip_front(s.drop_last());
        assert(s.drop_last()[0] == s[0]);
        assert(s.skip(1).drop_last() =~= s.drop_last().skip(1));
        assert(s.skip(1).last() == s.last());
        match s[0] {
            WorldCommand::Kill(ev0) => {
                match s.last() {
                    WorldCommand::Kill(evl) => {
                        assert(kill_keys(s) == kill_keys(s.drop_last()).insert(evl.entity_key));
                        assert(kill_keys(s.skip(1)) == kill_keys(s.skip(1).drop_last()).insert(
                            evl.entity_key,
                        ));
                        assert(kill_keys(s.drop_last().skip(1)).insert(evl.entity_key).insert(
                            ev0.entity_key,
                        ) =~= kill_keys(s.drop_last().skip(1)).insert(ev0.entity_key).insert(
                            evl.entity_key,
                        ));
                    },
                    WorldCommand::Spawn(_) => {},
                }
            },
            WorldCommand::Spawn(_) => {},
        }
    }
}

/// A world whose indices, registry, slot shape and type tags are unchanged
/// is still well formed, whatever happened to the stored entity values.
proof fn lemma_wf_after_value_updates<E>(a: World<E>, b: World<E>)
    requires
        a.wf(),
        forall|c: Capability| #[trigger] b.index_of(c) == a.index_of(c),
        b.registry == a.registry,
        same_shape(a.entities, b.entities),
        forall|k: EntityKey| b.entities.valid_key(k) == a.entities.valid_key(k),
        forall|k: EntityKey|
            a.entities.valid_key(k) ==> b.entities.at(k).type_id == a.entities.at(k).type_id,
    ensures
        b.wf(),
{
    assert(b.entities.wf()) by {
        assert forall|j: int| 0 <= j < b.entities.free_list@.len() implies (
        #[trigger] b.entities.free_list@[j]) < b.entities.slots@.len()
            && !b.entities.slots@[b.entities.free_list@[j] as int].state.is_occupied() by {
            assert(b.entities.free_list == a.entities.free_list);
            assert(b.entities.slots@[a.entities.free_list@[j] as int].state.is_occupied()
                == a.entities.slots@[a.entities.free_list@[j] as int].state.is_occupied());
        }
    }
    assert forall|c: Capability, k: EntityKey| #[trigger]
        b.index_of(c).contains(k) <==> b.entities.valid_key(k) && b.caps_at(k).spec_has(c) by {
        assert(b.index_of(c) == a.index_of(c));
        if b.entities.valid_key(k) {
            assert(b.caps_at(k) == a.caps_at(k));
        }
    }
    assert forall|c: Capability| no_dup_keys(#[trigger] b.index_of(c)) by {
        assert(b.index_of(c) == a.index_of(c));
    }
}

proof fn lemma_wf_parts_unchanged<E>(a: World<E>, b: World<E>)
    requires
        a.wf(),
        b.entities == a.entities,
        b.registry == a.registry,
        forall|c: Capability| #[trigger] b.index_of(c) == a.index_of(c),
    ensures
        b.wf(),
{
    assert forall|c: Capability, k: EntityKey| #[trigger]
        b.index_of(c).contains(k) <==> b.entities.valid_key(k) && b.caps_at(k).spec_has(c) by {
        assert(b.index_of(c) == a.index_of(c));
        if b.entities.valid_key(k) {
            assert(b.caps_at(k) == a.caps_at(k));
        }
    }
    assert forall|c: Capability| no_dup_keys(#[trigger] b.index_of(c)) by {
        assert(b.index_of(c) == a.index_of(c));
    }
}

impl<E: Entity> World<E> {
    /// Creates an empty world: no entities, no registrations, empty
    /// indices, empty command queue.
    pub fn new() -> (w: World<E>)
        ensures
            w.wf(),
            w.entities.slots@.len() == 0,
            forall|k: EntityKey| !w.entities.valid_key(k),
            forall|c: Capability| (#[trigger] w.index_of(c)).len() == 0,
            forall|t: u64| w.registry.caps_of(t) == CapabilitySet::spec_empty(),
            w.commands@.len() == 0,
    {
        World {
            entities: SlotMap::new(),
            registry: CapabilityRegistry::new(),
            tick_index: Vec::new(),
            fixed_tick_index: Vec::new(),
            input_index: Vec::new(),
            render_index: Vec::new(),
            spawn_index: Vec::new(),
            commands: Vec::new(),
        }
    }

    /// Registers the capability set of one concrete entity type.  Must run
    /// before any instance of that type is spawned; re-registering is
    /// idempotent, the last write winning.
    pub fn register(&mut self, type_id: u64, capability_set: CapabilitySet)
        requires
            old(self).wf(),
            forall|k: EntityKey|
                old(self).entities.valid_key(k) ==> old(self).entities.at(k).type_id != type_id,
        ensures
            final(self).wf(),
            final(self).registry.caps_of(type_id) == capability_set,
            forall|t: u64|
                t != type_id ==> final(self).registry.caps_of(t) == old(self).registry.caps_of(t),
            final(self).entities == old(self).entities,
            forall|c: Capability| final(self).index_of(c) == old(self).index_of(c),
            final(self).commands == old(self).commands,
    {
        self.registry.register(type_id, capability_set);
        proof {
            assert forall|c: Capability, k: EntityKey| #[trigger]
                self.index_of(c).contains(k) <==> self.entities.valid_key(k) && self.caps_at(
                k,
            ).spec_has(c) by {
                assert(self.index_of(c) == old(self).index_of(c));
                if self.entities.valid_key(k) {
                    assert(self.entities.at(k).type_id != type_id);
                    assert(self.caps_at(k) == old(self).caps_at(k));
                }
            }
            assert forall|c: Capability| no_dup_keys(#[trigger] self.index_of(c)) by {
                assert(self.index_of(c) == old(self).index_of(c));
            }
        }
    }

    /// Spawns an entity of a registered type: allocates a fresh key,
    /// appends it to the index of every capability the type registered,
    /// and, when the type registered the spawn capability, invokes the
    /// entity's `on_spawn` hook with the new key.  The key is returned at
    /// once, so the caller can refer to the entity before the next frame.
    pub fn spawn(&mut self, type_id: u64, entity: E) -> (k: EntityKey)
        requires
            old(self).wf(),
            old(self).entities.slots@.len() < u32::MAX as nat,
        ensures
            final(self).wf(),
            forall|k2: EntityKey| old(self).entities.valid_key(k2) ==> k2 != k,
            final(self).entities.valid_key(k),
            final(self).entities.at(k).type_id == type_id,
            !old(self).registry.caps_of(type_id).spec_has(Capability::Spawnable) ==> final(self).entities.at(k).entity == entity,
            forall|k2: EntityKey|
                k2 != k ==> final(self).entities.valid_key(k2) == old(self).entities.valid_key(k2),
            forall|k2: EntityKey|
                k2 != k && old(self).entities.valid_key(k2) ==> final(self).entities.at(k2) == old(self).entities.at(k2),
            forall|c: Capability|
                old(self).registry.caps_of(type_id).spec_has(c) ==> final(self).index_of(c) == old(self).index_of(c).push(k),
            forall|c: Capability|
                !old(self).registry.caps_of(type_id).spec_has(c) ==> final(self).index_of(c)
                    == old(self).index_of(c),
            final(self).registry == old(self).registry,
            final(self).commands == old(self).commands,
            forall|k2: EntityKey|
                old(self).entities.retired(k2) ==> final(self).entities.retired(k2) && k2 != k,
            final(self).entities.slots@.len() <= old(self).entities.slots@.len() + 1,
    {
        let caps = self.registry.capabilities_of(type_id);
        let k = self.entities.insert(Spawned { type_id, entity });
        if caps.has(Capability::Tickable) {
            self.tick_index.push(k);
        }
        if caps.has(Capability::FixedTickable) {
            self.fixed_tick_index.push(k);
        }
        if caps.has(Capability::Inputable) {
            self.input_index.push(k);
        }
        if caps.has(Capability::Renderable) {
            self.render_index.push(k);
        }
        if caps.has(Capability::Spawnable) {
            self.spawn_index.push(k);
            match self.entities.get_mut(k) {
                Some(s) => {
                    s.entity.on_spawn(k);
                },
                None => {},
            }
        }
        proof {
            let pre = *old(self);
            assert forall|c: Capability, k2: EntityKey|
                pre.index_of(c).contains(k2) implies pre.entities.valid_key(k2) by {}
            assert forall|c: Capability, k2: EntityKey| #[trigger]
                self.index_of(c).contains(k2) <==> self.entities.valid_key(k2) && self.caps_at(
                k2,
            ).spec_has(c) by {
                if caps.spec_has(c) {
                    assert(self.index_of(c) == pre.index_of(c).push(k));
                    lemma_push_contains(pre.index_of(c), k, k2);
                } else {
                    assert(self.index_of(c) == pre.index_of(c));
                }
                if k2 == k {
                    assert(self.entities.valid_key(k));
                    assert(self.caps_at(k) == caps);
                    assert(!pre.index_of(c).contains(k));
                } else {
                    if self.entities.valid_key(k2) {
                        assert(self.entities.at(k2) == pre.entities.at(k2));
                    }
                }
            }
            assert forall|c: Capability| no_dup_keys(#[trigger] self.index_of(c)) by {
                if caps.spec_has(c) {
                    assert(self.index_of(c) == pre.index_of(c).push(k));
                    assert(!pre.index_of(c).contains(k));
                    assert forall|p: int, q: int|
                        0 <= p < q < self.index_of(c).len() implies self.index_of(c)[p]
                        != self.index_of(c)[q] by {
                        if q == pre.index_of(c).len() {
                            assert(self.index_of(c)[p] == pre.index_of(c)[p]);
                            if pre.index_of(c)[p] == k {
                                assert(pre.index_of(c).contains(k));
                            }
                        }
                    }
                } else {
                    assert(self.index_of(c) == pre.index_of(c));
                }
            }
            assert forall|k2: EntityKey|
                pre.entities.retired(k2) implies self.entities.retired(k2) && k2 != k by {}
        }
        k
    }

    /// Queues the intent to kill the entity behind a key.  Storage and the
    /// capability indices stay untouched until [`Self::drain_commands`]
    /// runs, so a dispatch pass in flight keeps seeing the entity.
    pub fn kill(&mut self, key: EntityKey)
        ensures
            final(self).commands@ == old(self).commands@.push(
                WorldCommand::Kill(KillEvent { entity_key: key }),
            ),
            final(self).entities == old(self).entities,
            final(self).registry == old(self).registry,
            forall|c: Capability| final(self).index_of(c) == old(self).index_of(c),
            old(self).wf() ==> final(self).wf(),
    {
        self.commands.push(WorldCommand::Kill(KillEvent::new(key)));
        proof {
            if old(self).wf() {
                lemma_wf_parts_unchanged(*old(self), *self);
            }
        }
    }

    /// Queues the intent to spawn an entity; the key is assigned when the
    /// queue is drained.
    pub fn queue_spawn(&mut self, type_id: u64, entity: E)
        ensures
            final(self).commands@ == old(self).commands@.push(
                WorldCommand::Spawn(SpawnEvent { type_id, entity }),
            ),
            final(self).entities == old(self).entities,
            final(self).registry == old(self).registry,
            forall|c: Capability| final(self).index_of(c) == old(self).index_of(c),
            old(self).wf() ==> final(self).wf(),
    {
        self.commands.push(WorldCommand::Spawn(SpawnEvent::new(type_id, entity)));
        proof {
            if old(self).wf() {
                lemma_wf_parts_unchanged(*old(self), *self);
            }
        }
    }

    /// Applies one kill: frees the slot behind a valid key and drops the
    /// key from every capability index; a stale key changes nothing.
    fn apply_kill(&mut self, key: EntityKey)
        requires
            old(self).wf(),
        ensures
            final(self).wf(),
            final(self).registry == old(self).registry,
            final(self).commands == old(self).commands,
            final(self).entities.slots@.len() == old(self).entities.slots@.len(),
            !old(self).entities.valid_key(key) ==> *final(self) == *old(self),
            old(self).entities.valid_key(key) ==> {
                &&& !final(self).entities.valid_key(key)
                &&& final(self).entities.retired(key)
                &&& forall|k2: EntityKey|
                    k2 != key ==> final(self).entities.valid_key(k2) == old(
                        self,
                    ).entities.valid_key(k2)
                &&& forall|k2: EntityKey|
                    k2 != key && old(self).entities.valid_key(k2) ==> final(self).entities.at(k2)
                        == old(self).entities.at(k2)
                &&& forall|c: Capability|
                    final(self).index_of(c) == removed_key(old(self).index_of(c), key)
            },
            forall|k2: EntityKey|
                old(self).entities.retired(k2) ==> final(self).entities.retired(k2),
    {
        let ghost pre = *old(self);
        let removed = self.entities.remove(key);
        if removed {
            remove_key_from_index(&mut self.tick_index, key);
            remove_key_from_index(&mut self.fixed_tick_index, key);
            remove_key_from_index(&mut self.input_index, key);
            remove_key_from_index(&mut self.render_index, key);
            remove_key_from_index(&mut self.spawn_index, key);
            proof {
                assert forall|k2: EntityKey|
                    k2 != key implies self.entities.valid_key(k2) == pre.entities.valid_key(
                    k2,
                ) by {
                    if k2.index == key.index {
                        assert(pre.entities.slots@[key.index as int].generation == key.generation);
                    }
                }
                assert forall|c: Capability, k2: EntityKey| #[trigger]
                    self.index_of(c).contains(k2) <==> self.entities.valid_key(k2)
                        && self.caps_at(k2).spec_has(c) by {
                    assert(self.index_of(c) == removed_key(pre.index_of(c), key));
                    lemma_removed_key_contains(pre.index_of(c), key, k2);
                    if k2 != key && self.entities.valid_key(k2) {
                        assert(self.entities.at(k2) == pre.entities.at(k2));
                        assert(self.caps_at(k2) == pre.caps_at(k2));
                    }
                }
                assert forall|c: Capability| no_dup_keys(#[trigger] self.index_of(c)) by {
                    assert(self.index_of(c) == removed_key(pre.index_of(c), key));
                    lemma_removed_key_no_dups(pre.index_of(c), key);
                }
            }
        }
    }

    /// Drains the queue, oldest intent first: kills free their slots and
    /// leave every capability index, spawns allocate fresh keys, exactly as
    /// [`Self::spawn`] does.  Runs once per frame, between dispatch passes,
    /// so no pass ever observes a half-applied spawn or kill.  Every live
    /// entity the queue did not ask to kill survives unchanged; every live
    /// entity it did ask to kill is gone, its key never valid again.
    pub fn drain_commands(&mut self)
        requires
            old(self).wf(),
        ensures
            final(self).wf(),
            final(self).commands@.len() == 0,
            final(self).registry == old(self).registry,
            forall|k: EntityKey|
                old(self).entities.valid_key(k) && !kill_keys(old(self).commands@).contains(k)
                    ==> final(self).entities.valid_key(k) && final(self).entities.at(k) == old(
                    self,
                ).entities.at(k),
            forall|k: EntityKey|
                old(self).entities.valid_key(k) && kill_keys(old(self).commands@).contains(k)
                    ==> !final(self).entities.valid_key(k),
    {
        let ghost pre = *old(self);
        let ghost all_kills = kill_keys(pre.commands@);
        while self.commands.len() > 0
            invariant
                self.wf(),
                self.registry == pre.registry,
                kill_keys(self.commands@).subset_of(all_kills),
                forall|k: EntityKey|
                    pre.entities.valid_key(k) && !all_kills.contains(k)
                        ==> self.entities.valid_key(k) && self.entities.at(k) == pre.entities.at(
                        k,
                    ),
                forall|k: EntityKey|
                    pre.entities.valid_key(k) && all_kills.contains(k) ==> self.entities.valid_key(
                        k,
                    ) || self.entities.retired(k),
                forall|k: EntityKey|
                    pre.entities.valid_key(k) && all_kills.contains(k) && !kill_keys(
                        self.commands@,
                    ).contains(k) ==> self.entities.retired(k),
            decreases self.commands@.len(),
        {
            let ghost at_top = *self;
            let ghost before = self.commands@;
            let cmd = self.commands.remove(0);
            proof {
                lemma_kill_keys_skip_front(before);
                assert(self.commands@ =~= before.skip(1));
                assert forall|c: Capability| #[trigger] self.index_of(c) == at_top.index_of(
                    c,
                ) by {}
                lemma_wf_parts_unchanged(at_top, *self);
            }
            match cmd {
                WorldCommand::Kill(ev) => {
                    self.apply_kill(ev.entity_key);
                    proof {
                        assert(before[0] == WorldCommand::<E>::Kill(ev));
                        assert(kill_keys(before).contains(ev.entity_key));
                    }
                },
                WorldCommand::Spawn(ev) => {
                    // The store is addressed by u32 indices; a spawn intent
                    // is dropped in the unreachable case that they are all
                    // in use.
                    if self.entities.slots.len() < u32::MAX as usize {
                        let _k = self.spawn(ev.type_id, ev.entity);
                    }
                },
            }
        }
        proof {
            assert(kill_keys(self.commands@) =~= Set::<EntityKey>::empty()) by {
                assert(self.commands@.len() == 0);
            }
            assert forall|k: EntityKey|
                pre.entities.valid_key(k) && all_kills.contains(k)
                    implies !self.entities.valid_key(k) by {
                assert(self.entities.retired(k));
            }
        }
    }

    /// One tick dispatch pass: invokes `tick` on every live entity in the
    /// tick index, in index order (that is, spawn order), silently skipping
    /// stale keys.  Returns the keys visited, in order.  Commands returned
    /// by the entities are queued, never applied; the indices, the slot
    /// layout and every entity outside the tick index stay untouched.
    pub fn dispatch_tick(&mut self, delta_time_micros: u64) -> (visited: Vec<EntityKey>)
        requires
            old(self).wf(),
        ensures
            final(self).wf(),
            visited@ == live_filter(
                old(self).entities,
                old(self).index_of(Capability::Tickable),
            ),
            forall|c: Capability| final(self).index_of(c) == old(self).index_of(c),
            final(self).registry == old(self).registry,
            same_shape(old(self).entities, final(self).entities),
            forall|k: EntityKey|
                final(self).entities.valid_key(k) == old(self).entities.valid_key(k),
            forall|k: EntityKey|
                old(self).entities.valid_key(k) ==> final(self).entities.at(k).type_id == old(
                    self,
                ).entities.at(k).type_id,
            forall|k: EntityKey|
                old(self).entities.valid_key(k) && !old(self).index_of(
                    Capability::Tickable,
                ).contains(k) ==> final(self).entities.at(k) == old(self).entities.at(k),
            old(self).commands@.is_prefix_of(final(self).commands@),
    {
        let ghost pre = *old(self);
        let ghost idx = pre.index_of(Capability::Tickable);
        let mut visited: Vec<EntityKey> = Vec::new();
        let mut i: usize = 0;
        while i < self.tick_index.len()
            invariant
                pre.wf(),
                idx == pre.index_of(Capability::Tickable),
                self.tick_index@ == pre.tick_index@,
                self.fixed_tick_index@ == pre.fixed_tick_index@,
                self.input_index@ == pre.input_index@,
                self.render_index@ == pre.render_index@,
                self.spawn_index@ == pre.spawn_index@,
                i <= idx.len(),
                self.registry == pre.registry,
                same_shape(pre.entities, self.entities),
                forall|k: EntityKey| self.entities.valid_key(k) == pre.entities.valid_key(k),
                forall|k: EntityKey|
                    pre.entities.valid_key(k) ==> self.entities.at(k).type_id == pre.entities.at(
                        k,
                    ).type_id,
                forall|k: EntityKey|
                    pre.entities.valid_key(k) && !idx.take(i as int).contains(k)
                        ==> self.entities.at(k) == pre.entities.at(k),
                visited@ == live_filter(pre.entities, idx.take(i as int)),
                pre.commands@.is_prefix_of(self.commands@),
            decreases idx.len() - i,
        {
            let k = self.tick_index[i];
            let ghost before = *self;
            match self.entities.get_mut(k) {
                Some(s) => {
                    let mut cmds = s.entity.tick(delta_time_micros);
                    visited.push(k);
                    self.commands.append(&mut cmds);
                },
                None => {},
            }
            proof {
                lemma_live_filter_snoc(pre.entities, idx.take(i as int), k);
                assert(idx.take((i + 1) as int) =~= idx.take(i as int).push(k));
                assert forall|k2: EntityKey|
                    pre.entities.valid_key(k2) && !idx.take((i + 1) as int).contains(k2)
                        implies self.entities.at(k2) == pre.entities.at(k2) by {
                    assert(!idx.take(i as int).contains(k2)) by {
                        if idx.take(i as int).contains(k2) {
                            let p = choose|p: int|
                                0 <= p < i && idx.take(i as int)[p] == k2;
                            assert(idx.take((i + 1) as int)[p] == k2);
                        }
                    }
                    assert(k2 != k) by {
                        assert(idx.take((i + 1) as int)[i as int] == k);
                    }
                }
            }
            i += 1;
        }
        proof {
            assert(idx.take(idx.len() as int) =~= idx);
            lemma_wf_after_value_updates(pre, *self);
        }
        visited
    }

    /// One fixed-tick dispatch pass over the fixed-tick index; the same
    /// protocol as [`Self::dispatch_tick`].
    pub fn dispatch_fixed_tick(&mut self, delta_time_micros: u64) -> (visited: Vec<EntityKey>)
        requires
            old(self).wf(),
        ensures
            final(self).wf(),
            visited@ == live_filter(
                old(self).entities,
                old(self).index_of(Capability::FixedTickable),
            ),
            forall|c: Capability| final(self).index_of(c) == old(self).index_of(c),
            final(self).registry == old(self).registry,
            same_shape(old(self).entities, final(self).entities),
            forall|k: EntityKey|
                final(self).entities.valid_key(k) == old(self).entities.valid_key(k),
            forall|k: EntityKey|
                old(self).entities.valid_key(k) ==> final(self).entities.at(k).type_id == old(
                    self,
                ).entities.at(k).type_id,
            forall|k: EntityKey|
                old(self).entities.valid_key(k) && !old(self).index_of(
                    Capability::FixedTickable,
                ).contains(k) ==> final(self).entities.at(k) == old(self).entities.at(k),
            old(self).commands@.is_prefix_of(final(self).commands@),
    {
        let ghost pre = *old(self);
        let ghost idx = pre.index_of(Capability::FixedTickable);
        let mut visited: Vec<EntityKey> = Vec::new();
        let mut i: usize = 0;
        while i < self.fixed_tick_index.len()
            invariant
                pre.wf(),
                idx == pre.index_of(Capability::FixedTickable),
                self.tick_index@ == pre.tick_index@,
                self.fixed_tick_index@ == pre.fixed_tick_index@,
                self.input_index@ == pre.input_index@,
                self.render_index@ == pre.render_index@,
                self.spawn_index@ == pre.spawn_index@,
                i <= idx.len(),
                self.registry == pre.registry,
                same_shape(pre.entities, self.entities),
                forall|k: EntityKey| self.entities.valid_key(k) == pre.entities.valid_key(k),
                forall|k: EntityKey|
                    pre.entities.valid_key(k) ==> self.entities.at(k).type_id == pre.entities.at(
                        k,
                    ).type_id,
                forall|k: EntityKey|
                    pre.entities.valid_key(k) && !idx.take(i as int).contains(k)
                        ==> self.entities.at(k) == pre.entities.at(k),
                visited@ == live_filter(pre.entities, idx.take(i as int)),
                pre.commands@.is_prefix_of(self.commands@),
            decreases idx.len() - i,
        {
            let k = self.fixed_tick_index[i];
            match self.entities.get_mut(k) {
                Some(s) => {
                    let mut cmds = s.entity.fixed_tick(delta_time_micros);
                    visited.push(k);
                    self.commands.append(&mut cmds);
                },
                None => {},
            }
            proof {
                lemma_live_filter_snoc(pre.entities, idx.take(i as int), k);
                assert(idx.take((i + 1) as int) =~= idx.take(i as int).push(k));
                assert forall|k2: EntityKey|
                    pre.entities.valid_key(k2) && !idx.take((i + 1) as int).contains(k2)
                        implies self.entities.at(k2) == pre.entities.at(k2) by {
                    assert(!idx.take(i as int).contains(k2)) by {
                        if idx.take(i as int).contains(k2) {
                            let p = choose|p: int|
                                0 <= p < i && idx.take(i as int)[p] == k2;
                            assert(idx.take((i + 1) as int)[p] == k2);
                        }
                    }
                    assert(k2 != k) by {
                        assert(idx.take((i + 1) as int)[i as int] == k);
                    }
                }
            }
            i += 1;
        }
        proof {
            assert(idx.take(idx.len() as int) =~= idx);
            lemma_wf_after_value_updates(pre, *self);
        }
        visited
    }

    /// One input dispatch pass: every live entity in the input index sees
    /// the event, in index order, with no consumption or short-circuiting;
    /// the same protocol as [`Self::dispatch_tick`].
    pub fn dispatch_input(&mut self, event: &Input) -> (visited: Vec<EntityKey>)
        requires
            old(self).wf(),
        ensures
            final(self).wf(),
            visited@ == live_filter(
                old(self).entities,
                old(self).index_of(Capability::Inputable),
            ),
            forall|c: Capability| final(self).index_of(c) == old(self).index_of(c),
            final(self).registry == old(self).registry,
            same_shape(old(self).entities, final(self).entities),
            forall|k: EntityKey|
                final(self).entities.valid_key(k) == old(self).entities.valid_key(k),
            forall|k: EntityKey|
                old(self).entities.valid_key(k) ==> final(self).entities.at(k).type_id == old(
                    self,
                ).entities.at(k).type_id,
            forall|k: EntityKey|
                old(self).entities.valid_key(k) && !old(self).index_of(
                    Capability::Inputable,
                ).contains(k) ==> final(self).entities.at(k) == old(self).entities.at(k),
            old(self).commands@.is_prefix_of(final(self).commands@),
    {
        let ghost pre = *old(self);
        let ghost idx = pre.index_of(Capability::Inputable);
        let mut visited: Vec<EntityKey> = Vec::new();
        let mut i: usize = 0;
        while i < self.input_index.len()
            invariant
                pre.wf(),
                idx == pre.index_of(Capability::Inputable),
                self.tick_index@ == pre.tick_index@,
                self.fixed_tick_index@ == pre.fixed_tick_index@,
                self.input_index@ == pre.input_index@,
                self.render_index@ == pre.render_index@,
                self.spawn_index@ == pre.spawn_index@,
                i <= idx.len(),
                self.registry == pre.registry,
                same_shape(pre.entities, self.entities),
                forall|k: EntityKey| self.entities.valid_key(k) == pre.entities.valid_key(k),
                forall|k: EntityKey|
                    pre.entities.valid_key(k) ==> self.entities.at(k).type_id == pre.entities.at(
                        k,
                    ).type_id,
                forall|k: EntityKey|
                    pre.entities.valid_key(k) && !idx.take(i as int).contains(k)
                        ==> self.entities.at(k) == pre.entities.at(k),
                visited@ == live_filter(pre.entities, idx.take(i as int)),
                pre.commands@.is_prefix_of(self.commands@),
            decreases idx.len() - i,
        {
            let k = self.input_index[i];
            match self.entities.get_mut(k) {
                Some(s) => {
                    let mut cmds = s.entity.input(event);
                    visited.push(k);
                    self.commands.append(&mut cmds);
                },
                None => {},
            }
            proof {
                lemma_live_filter_snoc(pre.entities, idx.take(i as int), k);
                assert(idx.take((i + 1) as int) =~= idx.take(i as int).push(k));
                assert forall|k2: EntityKey|
                    pre.entities.valid_key(k2) && !idx.take((i + 1) as int).contains(k2)
                        implies self.entities.at(k2) == pre.entities.at(k2) by {
                    assert(!idx.take(i as int).contains(k2)) by {
                        if idx.take(i as int).contains(k2) {
                            let p = choose|p: int|
                                0 <= p < i && idx.take(i as int)[p] == k2;
                            assert(idx.take((i + 1) as int)[p] == k2);
                        }
                    }
                    assert(k2 != k) by {
                        assert(idx.take((i + 1) as int)[i as int] == k);
                    }
                }
            }
            i += 1;
        }
        proof {
            assert(idx.take(idx.len() as int) =~= idx);
            lemma_wf_after_value_updates(pre, *self);
        }
        visited
    }

    /// One render dispatch pass: visits every live entity in the render
    /// index, in index order (spawn order), silently skipping stale keys,
    /// and collects each visited entity's tasks as one chunk.  Returns the
    /// chunks and the keys visited, in order, one chunk per visited key.
    /// The entity store's layout, the indices and the command queue stay
    /// untouched; no draw call is issued here.
    pub fn visit_renderables(&mut self) -> (r: (Vec<Vec<<E as Entity>::Task>>, Vec<EntityKey>))
        requires
            old(self).wf(),
        ensures
            final(self).wf(),
            r.1@ == live_filter(old(self).entities, old(self).index_of(Capability::Renderable)),
            r.0@.len() == r.1@.len(),
            forall|c: Capability| final(self).index_of(c) == old(self).index_of(c),
            final(self).registry == old(self).registry,
            same_shape(old(self).entities, final(self).entities),
            forall|k: EntityKey|
                final(self).entities.valid_key(k) == old(self).entities.valid_key(k),
            forall|k: EntityKey|
                old(self).entities.valid_key(k) ==> final(self).entities.at(k).type_id == old(
                    self,
                ).entities.at(k).type_id,
            forall|k: EntityKey|
                old(self).entities.valid_key(k) && !old(self).index_of(
                    Capability::Renderable,
                ).contains(k) ==> final(self).entities.at(k) == old(self).entities.at(k),
            final(self).commands == old(self).commands,
    {
        let ghost pre = *old(self);
        let ghost idx = pre.index_of(Capability::Renderable);
        let mut chunks: Vec<Vec<<E as Entity>::Task>> = Vec::new();
        let mut visited: Vec<EntityKey> = Vec::new();
        let mut i: usize = 0;
        while i < self.render_index.len()
            invariant
                pre.wf(),
                idx == pre.index_of(Capability::Renderable),
                self.tick_index@ == pre.tick_index@,
                self.fixed_tick_index@ == pre.fixed_tick_index@,
                self.input_index@ == pre.input_index@,
                self.render_index@ == pre.render_index@,
                self.spawn_index@ == pre.spawn_index@,
                i <= idx.len(),
                self.registry == pre.registry,
                same_shape(pre.entities, self.entities),
                forall|k: EntityKey| self.entities.valid_key(k) == pre.entities.valid_key(k),
                forall|k: EntityKey|
                    pre.entities.valid_key(k) ==> self.entities.at(k).type_id == pre.entities.at(
                        k,
                    ).type_id,
                forall|k: EntityKey|
                    pre.entities.valid_key(k) && !idx.take(i as int).contains(k)
                        ==> self.entities.at(k) == pre.entities.at(k),
                visited@ == live_filter(pre.entities, idx.take(i as int)),
                chunks@.len() == visited@.len(),
                self.commands == pre.commands,
            decreases idx.len() - i,
        {
            let k = self.render_index[i];
            match self.entities.get_mut(k) {
                Some(s) => {
                    let t = s.entity.render_tasks();
                    visited.push(k);
                    chunks.push(t);
                },
                None => {},
            }
            proof {
                lemma_live_filter_snoc(pre.entities, idx.take(i as int), k);
                assert(idx.take((i + 1) as int) =~= idx.take(i as int).push(k));
                assert forall|k2: EntityKey|
                    pre.entities.valid_key(k2) && !idx.take((i + 1) as int).contains(k2)
                        implies self.entities.at(k2) == pre.entities.at(k2) by {
                    assert(!idx.take(i as int).contains(k2)) by {
                        if idx.take(i as int).contains(k2) {
                            let p = choose|p: int|
                                0 <= p < i && idx.take(i as int)[p] == k2;
                            assert(idx.take((i + 1) as int)[p] == k2);
                        }
                    }
                    assert(k2 != k) by {
                        assert(idx.take((i + 1) as int)[i as int] == k);
                    }
                }
            }
            i += 1;
        }
        proof {
            assert(idx.take(idx.len() as int) =~= idx);
            lemma_wf_after_value_updates(pre, *self);
        }
        (chunks, visited)
    }

    /// One render dispatch pass, flattened: the per-entity chunks that
    /// [`Self::visit_renderables`] collects -- one per visited key, in
    /// spawn order -- concatenated by [`concat_tasks`] into one stream for
    /// the external renderer.
    pub fn dispatch_render(&mut self) -> (r: (Vec<<E as Entity>::Task>, Vec<EntityKey>))
        requires
            old(self).wf(),
        ensures
            final(self).wf(),
            r.1@ == live_filter(old(self).entities, old(self).index_of(Capability::Renderable)),
            forall|c: Capability| final(self).index_of(c) == old(self).index_of(c),
            final(self).registry == old(self).registry,
            same_shape(old(self).entities, final(self).entities),
            forall|k: EntityKey|
                final(self).entities.valid_key(k) == old(self).entities.valid_key(k),
            forall|k: EntityKey|
                old(self).entities.valid_key(k) ==> final(self).entities.at(k).type_id == old(
                    self,
                ).entities.at(k).type_id,
            forall|k: EntityKey|
                old(self).entities.valid_key(k) && !old(self).index_of(
                    Capability::Renderable,
                ).contains(k) ==> final(self).entities.at(k) == old(self).entities.at(k),
            final(self).commands == old(self).commands,
    {
        let (chunks, visited) = self.visit_renderables();
        let flat = concat_tasks(chunks);
        (flat, visited)
    }
}

/// The chunks of a grouped stream, flattened front to back.
pub open spec fn flatten_chunks<T>(chunks: Seq<Seq<T>>) -> Seq<T>
    decreases chunks.len(),
{
    if chunks.len() == 0 {
        Seq::empty()
    } else {
        chunks.first() + flatten_chunks(chunks.drop_first())
    }
}

/// Flattens per-entity task chunks into one stream: chunk order is kept,
/// and inside each chunk so is task order -- the concatenation the render
/// dispatch hands to the external renderer.
pub fn concat_tasks<T>(chunks: Vec<Vec<T>>) -> (flat: Vec<T>)
    ensures
        flat@ == flatten_chunks(chunks@.map_values(|c: Vec<T>| c@)),
{
    let ghost all = chunks@.map_values(|c: Vec<T>| c@);
    let mut rest = chunks;
    let mut flat: Vec<T> = Vec::new();
    proof {
        assert(rest@.map_values(|c: Vec<T>| c@) =~= all);
        assert(Seq::<T>::empty() + flatten_chunks(all) =~= flatten_chunks(all));
    }
    while rest.len() > 0
        invariant
            flat@ + flatten_chunks(rest@.map_values(|c: Vec<T>| c@)) == flatten_chunks(all),
        decreases rest@.len(),
    {
        let ghost mid = rest@.map_values(|c: Vec<T>| c@);
        let ghost flat0 = flat@;
        let mut c = rest.remove(0);
        flat.append(&mut c);
        proof {
            assert(mid.first() + flatten_chunks(mid.drop_first()) == flatten_chunks(mid));
            assert(rest@.map_values(|c2: Vec<T>| c2@) =~= mid.drop_first());
            assert(flat@ =~= flat0 + mid.first());
            assert((flat0 + mid.first()) + flatten_chunks(mid.drop_first()) =~= flat0 + (
            mid.first() + flatten_chunks(mid.drop_first())));
        }
    }
    proof {
        assert(rest@.map_values(|c: Vec<T>| c@).len() == 0);
        assert(flat@ + Seq::<T>::empty() =~= flat@);
    }
    flat
}

/// Law (capability isolation): a key whose entity did not register a
/// capability never stands in that capability's index.  In particular, an
/// entity type registered with the tick capability alone never appears in
/// the render, input or fixed-tick index; a dangling key appears nowhere.
pub proof fn lemma_capability_isolation<E>(w: World<E>, k: EntityKey, c: Capability)
    requires
        w.wf(),
        w.entities.valid_key(k) ==> !w.caps_at(k).spec_has(c),
    ensures
        !w.index_of(c).contains(k),
{
}

/// Law (dispatch order determinism): two live entities are visited by a
/// dispatch pass in index order, which is spawn order, since
/// [`World::spawn`] appends to the indices and every dispatch pass visits
/// exactly `live_filter` of its index, in order.  So spawning A and then B
/// always ticks A before B, however often the pass is repeated.
pub proof fn lemma_dispatch_order<E>(w: World<E>, c: Capability, i: int, j: int)
    requires
        w.wf(),
        0 <= i < j < w.index_of(c).len(),
        w.entities.valid_key(w.index_of(c)[i]),
        w.entities.valid_key(w.index_of(c)[j]),
    ensures
        exists|p: int, q: int|
            0 <= p < q < live_filter(w.entities, w.index_of(c)).len() && live_filter(
                w.entities,
                w.index_of(c),
            )[p] == w.index_of(c)[i] && live_filter(w.entities, w.index_of(c))[q] == w.index_of(
                c,
            )[j],
{
    lemma_live_filter_preserves_order(w.entities, w.index_of(c), i, j);
}

/// Law (deferred mutation): [`World::kill`] leaves the entity store and
/// every capability index exactly as they were -- its ensures are this
/// lemma's premises -- so every dispatch pass of the same frame still
/// visits the same keys, the killed one included, until
/// [`World::drain_commands`] applies the queue.
pub proof fn lemma_kill_is_deferred<E>(pre: World<E>, post: World<E>)
    requires
        post.entities == pre.entities,
        forall|c: Capability| #[trigger] post.index_of(c) == pre.index_of(c),
    ensures
        forall|c: Capability| #[trigger]
            live_filter(post.entities, post.index_of(c)) == live_filter(
                pre.entities,
                pre.index_of(c),
            ),
{
}

} // verus!
