//! Capability registration: which cross-cutting behaviors (tick, fixed
//! tick, input, render, spawn) a concrete entity type takes part in.
//!
//! Each concrete type is identified by a plain numeric tag and registered
//! once at startup; an unregistered tag takes part in nothing.

use std::collections::HashMap;
use vstd::prelude::*;

verus! {

broadcast use vstd::std_specs::hash::group_hash_axioms;

/// One cross-cutting behavior an entity type may implement.
#[derive(Clone, Copy, PartialEq, Eq, Hash, Debug, Structural)]
pub enum Capability {
    Tickable,
    FixedTickable,
    Inputable,
    Renderable,
    Spawnable,
}

/// The set of capabilities one concrete entity type implements.
#[derive(Clone, Copy, PartialEq, Eq, Debug, Structural)]
pub struct CapabilitySet {
    pub tickable: bool,
    pub fixed_tickable: bool,
    pub inputable: bool,
    pub renderable: bool,
    pub spawnable: bool,
}

impl CapabilitySet {
    pub open spec fn spec_has(self, c: Capability) -> bool {
        match c {
            Capability::Tickable => self.tickable,
            Capability::FixedTickable => self.fixed_tickable,
            Capability::Inputable => self.inputable,
            Capability::Renderable => self.renderable,
            Capability::Spawnable => self.spawnable,
        }
    }

    /// The set with no capabilities at all.
    pub open spec fn spec_empty() -> CapabilitySet {
        CapabilitySet {
            tickable: false,
            fixed_tickable: false,
            inputable: false,
            renderable: false,
            spawnable: false,
        }
    }

    /// Builds the set with no capabilities.
    pub fn empty() -> (s: CapabilitySet)
        ensures
            s == CapabilitySet::spec_empty(),
            forall|c: Capability| !s.spec_has(c),
    {
        CapabilitySet {
            tickable: false,
            fixed_tickable: false,
            inputable: false,
            renderable: false,
            spawnable: false,
        }
    }

    /// Membership test.
    pub fn has(&self, c: Capability) -> (b: bool)
        ensures
            b == self.spec_has(c),
    {
        match c {
            Capability::Tickable => self.tickable,
            Capability::FixedTickable => self.fixed_tickable,
            Capability::Inputable => self.inputable,
            Capability::Renderable => self.renderable,
            Capability::Spawnable => self.spawnable,
        }
    }

    /// The same set with one more capability.
    pub fn with(self, c: Capability) -> (s: CapabilitySet)
        ensures
            s.spec_has(c),
            forall|c2: Capability| c2 != c ==> s.spec_has(c2) == self.spec_has(c2),
    {
        let mut s = self;
        match c {
            Capability::Tickable => {
                s.tickable = true;
            },
            Capability::FixedTickable => {
                s.fixed_tickable = true;
            },
            Capability::Inputable => {
                s.inputable = true;
            },
            Capability::Renderable => {
                s.renderable = true;
            },
            Capability::Spawnable => {
                s.spawnable = true;
            },
        }
        s
    }
}

/// Maps a concrete entity type, identified by a numeric tag, to the set of
/// capabilities it registered.  A tag that never registered maps to the
/// empty set, so its instances take part in nothing.
pub struct CapabilityRegistry {
    pub table: HashMap<u64, CapabilitySet>,
}

impl CapabilityRegistry {
    /// The capability set registered for a tag, or the empty set.
    pub open spec fn caps_of(self, type_id: u64) -> CapabilitySet {
        if self.table@.contains_key(type_id) {
            self.table@[type_id]
        } else {
            CapabilitySet::spec_empty()
        }
    }

    /// Creates a registry with nothing registered.
    pub fn new() -> (r: CapabilityRegistry)
        ensures
            forall|t: u64| r.caps_of(t) == CapabilitySet::spec_empty(),
    {
        CapabilityRegistry { table: HashMap::new() }
    }

    /// Registers (or re-registers; the last write wins) the capability set
    /// of one concrete entity type.
    pub fn register(&mut self, type_id: u64, capability_set: CapabilitySet)
        ensures
            final(self).caps_of(type_id) == capability_set,
            forall|t: u64| t != type_id ==> final(self).caps_of(t) == old(self).caps_of(t),
    {
        self.table.insert(type_id, capability_set);
    }

    /// The capability set a tag registered; the empty set for an absent tag.
    pub fn capabilities_of(&self, type_id: u64) -> (s: CapabilitySet)
        ensures
            s == self.caps_of(type_id),
    {
        match self.table.get(&type_id) {
            Some(s) => *s,
            None => CapabilitySet::empty(),
        }
    }
}

} // verus!
