//! The frame driver: owns the world and the fixed-step clock and runs the
//! per-frame protocol -- poll input, drain the fixed-step accumulator,
//! tick, collect render tasks, apply queued commands.
//!
//! The driver is fed plain per-frame data (the measured elapsed time and
//! the polled input events); windowing, timing and drawing live with the
//! program around the library, which consumes the returned task streams.

use vstd::prelude::*;
use crate::capability::Capability;
use crate::input::Input;
use crate::slotmap::EntityKey;
use crate::tick::{FixedStep, WorldTick};
use crate::world::{live_filter, same_shape, Entity, World};

verus! {

/// The fixed step of the world clock, in microseconds.
pub const FRAME_STEP_MICROS: u64 = 10000;

/// The failure of an application's initialisation hook.
#[derive(Clone, Copy, PartialEq, Eq, Debug, Structural)]
pub struct AppError;

/// What the application provides at startup: its capability registrations
/// and its initial world state.  Implementations work through the world's
/// public interface, which keeps a well-formed world well formed; both
/// hooks promise no more than that.
pub trait Genesis<E: Entity> {
    /// Registers every concrete entity type's capability set; runs before
    /// any instance is spawned.
    fn register_components(&self, world: &mut World<E>)
        requires
            old(world).wf(),
        ensures
            final(world).wf(),
    ;

    /// Builds the initial world: spawns the first entities, or reports why
    /// it cannot.
    fn init(&self, world: &mut World<E>) -> (r: Result<(), AppError>)
        requires
            old(world).wf(),
        ensures
            final(world).wf(),
    ;
}

/// One frame's outside data: how long the previous frame took, and the
/// input events polled since.
pub struct FrameInput {
    pub elapsed_micros: u64,
    pub inputs: Vec<Input>,
}

/// The application: its genesis hooks, run by the frame driver.
pub struct App<G> {
    pub genesis: G,
}

impl<G> App<G> {
    /// Wraps the application's genesis hooks.
    pub fn new(init: G) -> (app: App<G>)
        ensures
            app.genesis == init,
    {
        App { genesis: init }
    }

    /// One render pass: collects every live renderable entity's tasks into
    /// one stream, in spawn order, and returns the stream together with
    /// the keys visited, in order.  Storage keeps its shape, every key its
    /// validity and every entity its type; the indices, the registry and
    /// the command queue stay as they were.
    pub fn render<E: Entity>(&self, world: &mut World<E>) -> (r: (
        Vec<<E as Entity>::Task>,
        Vec<EntityKey>,
    ))
        requires
            old(world).wf(),
        ensures
            final(world).wf(),
            r.1@ == live_filter(old(world).entities, old(world).index_of(Capability::Renderable)),
            same_shape(old(world).entities, final(world).entities),
            forall|k: EntityKey|
                final(world).entities.valid_key(k) == old(world).entities.valid_key(k),
            forall|k: EntityKey|
                old(world).entities.valid_key(k) ==> final(world).entities.at(k).type_id == old(
                    world,
                ).entities.at(k).type_id,
            forall|k: EntityKey|
                old(world).entities.valid_key(k) && !old(world).index_of(
                    Capability::Renderable,
                ).contains(k) ==> final(world).entities.at(k) == old(world).entities.at(k),
            final(world).commands == old(world).commands,
            forall|c: Capability| #[trigger] final(world).index_of(c) == old(world).index_of(c),
            final(world).registry == old(world).registry,
    {
        world.dispatch_render()
    }

    /// Runs the whole protocol: builds an empty world, lets the genesis
    /// hooks register and initialise it, then drives one frame per entry
    /// of `frames` -- input dispatch, the fixed-step loop, the variable
    /// tick, render collection, and the command drain between frames.
    /// Returns one render-task stream per frame, or the initialisation
    /// error.
    pub fn run<E: Entity>(self, frames: Vec<FrameInput>) -> (r: Result<
        Vec<Vec<<E as Entity>::Task>>,
        AppError,
    >) where G: Genesis<E>
        ensures
            r is Ok ==> r->Ok_0@.len() == frames@.len(),
    {
        let mut world: World<E> = World::new();
        self.genesis.register_components(&mut world);
        match self.genesis.init(&mut world) {
            Ok(()) => {},
            Err(e) => {
                return Err(e);
            },
        }
        let mut tick = WorldTick::FixedStep(FixedStep::new(FRAME_STEP_MICROS));
        let mut results: Vec<Vec<<E as Entity>::Task>> = Vec::new();
        let mut f: usize = 0;
        while f < frames.len()
            invariant
                world.wf(),
                tick.wf(),
                f <= frames@.len(),
                results@.len() == f,
            decreases frames@.len() - f,
        {
            let frame = &frames[f];
            let mut i: usize = 0;
            while i < frame.inputs.len()
                invariant
                    world.wf(),
                    i <= frame.inputs@.len(),
                decreases frame.inputs@.len() - i,
            {
                let _visited = world.dispatch_input(&frame.inputs[i]);
                i += 1;
            }
            tick.prepare_tick(frame.elapsed_micros);
            // The variable tick sees the frame's whole elapsed time, taken
            // before the fixed-step loop consumes the accumulator.
            let delta_time = tick.delta_time();
            while tick.should_tick()
                invariant
                    world.wf(),
                    tick.wf(),
                decreases tick.step().accumulator_micros,
            {
                tick.tick();
                let _visited = world.dispatch_fixed_tick(tick.delta_time());
            }
            let _visited = world.dispatch_tick(delta_time);
            let r = self.render(&mut world);
            world.drain_commands();
            results.push(r.0);
            f += 1;
        }
        Ok(results)
    }
}

} // verus!
