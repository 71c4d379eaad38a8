//! Entity/world core of a game engine: a generational-slot entity store,
//! a capability registry keyed by entity type, and a tick/render/input
//! dispatch protocol with deferred spawn/kill commands, together with the
//! supporting asset containers and the render bookkeeping around them.

pub mod capability;
pub mod command;
pub mod driver;
pub mod input;
pub mod mesh;
pub mod render;
pub mod resources;
pub mod slotmap;
pub mod tick;
pub mod world;
