//! Deferred world mutation: the intent to spawn or kill is queued as a
//! command and applied between frames, never in the middle of a dispatch
//! pass, so every pass iterates over a stable entity set.

use vstd::prelude::*;
use crate::slotmap::EntityKey;

verus! {

/// The intent to add one entity of a registered concrete type.
pub struct SpawnEvent<E> {
    pub type_id: u64,
    pub entity: E,
}

impl<E> SpawnEvent<E> {
    pub fn new(type_id: u64, entity: E) -> (ev: SpawnEvent<E>)
        ensures
            ev.type_id == type_id,
            ev.entity == entity,
    {
        SpawnEvent { type_id, entity }
    }
}

/// The intent to remove the entity behind a key; a stale key makes the
/// command a no-op when it is drained.
pub struct KillEvent {
    pub entity_key: EntityKey,
}

impl KillEvent {
    pub fn new(entity_key: EntityKey) -> (ev: KillEvent)
        ensures
            ev.entity_key == entity_key,
    {
        KillEvent { entity_key }
    }
}

/// One queued world mutation.
pub enum WorldCommand<E> {
    Spawn(SpawnEvent<E>),
    Kill(KillEvent),
}

/// The keys that a command sequence asks to kill.
pub open spec fn kill_keys<E>(commands: Seq<WorldCommand<E>>) -> Set<EntityKey>
    decreases commands.len(),
{
    if commands.len() == 0 {
        Set::empty()
    } else {
        let rest = kill_keys(commands.drop_last());
        match commands.last() {
            WorldCommand::Kill(ev) => rest.insert(ev.entity_key),
            WorldCommand::Spawn(_) => rest,
        }
    }
}

} // verus!
