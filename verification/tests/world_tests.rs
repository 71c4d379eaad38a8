use ale_core::capability::{Capability, CapabilitySet};
use ale_core::command::{KillEvent, WorldCommand};
use ale_core::input::Input;
use ale_core::slotmap::EntityKey;
use ale_core::world::{concat_tasks, Entity, World};

const CREATURE: u64 = 1;
const SCENERY: u64 = 2;

struct Creature {
    name: String,
    key: Option<EntityKey>,
    ticks: u64,
    fixed_ticks: u64,
    inputs_seen: u64,
    kill_self_on_tick: bool,
}

impl Creature {
    fn named(name: &str) -> Creature {
        Creature {
            name: String::from(name),
            key: None,
            ticks: 0,
            fixed_ticks: 0,
            inputs_seen: 0,
            kill_self_on_tick: false,
        }
    }
}

impl Entity for Creature {
    type Task = String;

    fn on_spawn(&mut self, key: EntityKey) {
        self.key = Some(key);
    }

    fn tick(&mut self, _delta_time_micros: u64) -> Vec<WorldCommand<Self>> {
        self.ticks += 1;
        match (self.kill_self_on_tick, self.key) {
            (true, Some(key)) => vec![WorldCommand::Kill(KillEvent::new(key))],
            _ => vec![],
        }
    }

    fn fixed_tick(&mut self, _delta_time_micros: u64) -> Vec<WorldCommand<Self>> {
        self.fixed_ticks += 1;
        vec![]
    }

    fn input(&mut self, _event: &Input) -> Vec<WorldCommand<Self>> {
        self.inputs_seen += 1;
        vec![]
    }

    fn render_tasks(&mut self) -> Vec<String> {
        vec![format!("{}-task-1", self.name), format!("{}-task-2", self.name)]
    }
}

fn creature_caps() -> CapabilitySet {
    CapabilitySet::empty()
        .with(Capability::Tickable)
        .with(Capability::FixedTickable)
        .with(Capability::Inputable)
        .with(Capability::Renderable)
        .with(Capability::Spawnable)
}

fn tick_only_caps() -> CapabilitySet {
    CapabilitySet::empty().with(Capability::Tickable)
}

#[test]
fn registry_defaults_to_empty_set() {
    let mut world: World<Creature> = World::new();
    world.register(CREATURE, creature_caps());
    let absent = world.registry.capabilities_of(999);
    assert!(!absent.has(Capability::Tickable));
    assert!(!absent.has(Capability::Renderable));
    let present = world.registry.capabilities_of(CREATURE);
    assert!(present.has(Capability::Tickable));
}

#[test]
fn spawn_indexes_only_registered_capabilities() {
    // An entity type registered with the tick capability alone must never
    // appear in the render, input, fixed-tick or spawn index.
    let mut world: World<Creature> = World::new();
    world.register(SCENERY, tick_only_caps());
    let k = world.spawn(SCENERY, Creature::named("rock"));
    assert_eq!(world.tick_index, vec![k]);
    assert!(world.render_index.is_empty());
    assert!(world.input_index.is_empty());
    assert!(world.fixed_tick_index.is_empty());
    assert!(world.spawn_index.is_empty());
}

#[test]
fn on_spawn_runs_only_with_spawn_capability() {
    let mut world: World<Creature> = World::new();
    world.register(CREATURE, creature_caps());
    world.register(SCENERY, tick_only_caps());
    let ka = world.spawn(CREATURE, Creature::named("a"));
    let kb = world.spawn(SCENERY, Creature::named("b"));
    assert_eq!(world.entities.get(ka).unwrap().entity.key, Some(ka));
    assert_eq!(world.entities.get(kb).unwrap().entity.key, None);
}

#[test]
fn dispatch_tick_visits_in_spawn_order() {
    let mut world: World<Creature> = World::new();
    world.register(CREATURE, creature_caps());
    let ka = world.spawn(CREATURE, Creature::named("a"));
    let kb = world.spawn(CREATURE, Creature::named("b"));
    for _ in 0..3 {
        let visited = world.dispatch_tick(16000);
        assert_eq!(visited, vec![ka, kb]);
    }
    assert_eq!(world.entities.get(ka).unwrap().entity.ticks, 3);
    assert_eq!(world.entities.get(kb).unwrap().entity.ticks, 3);
}

#[test]
fn dispatch_skips_unregistered_capability() {
    // Dispatching a capability a type never declared is a silent no-op.
    let mut world: World<Creature> = World::new();
    world.register(SCENERY, tick_only_caps());
    let k = world.spawn(SCENERY, Creature::named("rock"));
    let visited = world.dispatch_input(&Input::Char('x'));
    assert!(visited.is_empty());
    let (tasks, rendered) = world.dispatch_render();
    assert!(tasks.is_empty());
    assert!(rendered.is_empty());
    assert_eq!(world.entities.get(k).unwrap().entity.inputs_seen, 0);
}

#[test]
fn dispatch_render_concatenates_tasks_in_spawn_order() {
    let mut world: World<Creature> = World::new();
    world.register(CREATURE, creature_caps());
    let ka = world.spawn(CREATURE, Creature::named("a"));
    let kb = world.spawn(CREATURE, Creature::named("b"));
    let (tasks, visited) = world.dispatch_render();
    assert_eq!(visited, vec![ka, kb]);
    assert_eq!(
        tasks,
        vec![
            String::from("a-task-1"),
            String::from("a-task-2"),
            String::from("b-task-1"),
            String::from("b-task-2"),
        ]
    );
}

#[test]
fn visit_renderables_yields_one_chunk_per_visited_entity() {
    let mut world: World<Creature> = World::new();
    world.register(CREATURE, creature_caps());
    let ka = world.spawn(CREATURE, Creature::named("a"));
    let kb = world.spawn(CREATURE, Creature::named("b"));
    let (chunks, visited) = world.visit_renderables();
    assert_eq!(visited, vec![ka, kb]);
    assert_eq!(chunks.len(), visited.len());
    assert_eq!(chunks[0], vec![String::from("a-task-1"), String::from("a-task-2")]);
    assert_eq!(chunks[1], vec![String::from("b-task-1"), String::from("b-task-2")]);
    let flat = concat_tasks(chunks);
    let (stream, _) = world.dispatch_render();
    assert_eq!(flat, stream);
}

#[test]
fn concat_tasks_flattens_in_chunk_order() {
    let chunks: Vec<Vec<u32>> = vec![vec![1, 2], vec![], vec![3], vec![4, 5, 6]];
    assert_eq!(concat_tasks(chunks), vec![1, 2, 3, 4, 5, 6]);
    let none: Vec<Vec<u32>> = vec![];
    assert!(concat_tasks(none).is_empty());
}

#[test]
fn every_inputable_entity_sees_every_event() {
    let mut world: World<Creature> = World::new();
    world.register(CREATURE, creature_caps());
    let ka = world.spawn(CREATURE, Creature::named("a"));
    let kb = world.spawn(CREATURE, Creature::named("b"));
    world.dispatch_input(&Input::Char('x'));
    world.dispatch_input(&Input::MouseMotion { rel_x: 1, rel_y: -2, abs_x: 10, abs_y: 20 });
    assert_eq!(world.entities.get(ka).unwrap().entity.inputs_seen, 2);
    assert_eq!(world.entities.get(kb).unwrap().entity.inputs_seen, 2);
}

#[test]
fn kill_is_deferred_until_drain() {
    // A kill requested during a tick pass must not leave any index before
    // drain_commands runs; the same frame's render pass still sees it.
    let mut world: World<Creature> = World::new();
    world.register(CREATURE, creature_caps());
    let mut doomed = Creature::named("doomed");
    doomed.kill_self_on_tick = true;
    let k = world.spawn(CREATURE, doomed);
    let visited = world.dispatch_tick(16000);
    assert_eq!(visited, vec![k]);
    assert_eq!(world.commands.len(), 1);
    assert_eq!(world.tick_index, vec![k]);
    assert_eq!(world.render_index, vec![k]);
    let (tasks, rendered) = world.dispatch_render();
    assert_eq!(rendered, vec![k]);
    assert_eq!(tasks.len(), 2);
    world.drain_commands();
    assert!(world.commands.is_empty());
    assert!(world.entities.get(k).is_none());
    assert!(world.tick_index.is_empty());
    assert!(world.render_index.is_empty());
    let (tasks_after, rendered_after) = world.dispatch_render();
    assert!(tasks_after.is_empty());
    assert!(rendered_after.is_empty());
}

#[test]
fn explicit_kill_then_drain_removes_from_all_indices() {
    let mut world: World<Creature> = World::new();
    world.register(CREATURE, creature_caps());
    let ka = world.spawn(CREATURE, Creature::named("a"));
    let kb = world.spawn(CREATURE, Creature::named("b"));
    world.kill(ka);
    assert_eq!(world.tick_index, vec![ka, kb]);
    world.drain_commands();
    assert_eq!(world.tick_index, vec![kb]);
    assert_eq!(world.render_index, vec![kb]);
    assert!(world.entities.get(ka).is_none());
    assert!(world.entities.get(kb).is_some());
}

#[test]
fn drain_applies_queued_spawns() {
    let mut world: World<Creature> = World::new();
    world.register(CREATURE, creature_caps());
    world.queue_spawn(CREATURE, Creature::named("later"));
    assert!(world.tick_index.is_empty());
    world.drain_commands();
    assert_eq!(world.tick_index.len(), 1);
    let k = world.tick_index[0];
    assert_eq!(world.entities.get(k).unwrap().entity.name, "later");
}

#[test]
fn kill_of_stale_key_is_noop_at_drain() {
    let mut world: World<Creature> = World::new();
    world.register(CREATURE, creature_caps());
    let ka = world.spawn(CREATURE, Creature::named("a"));
    world.kill(EntityKey { index: 55, generation: 0 });
    world.kill(ka);
    world.kill(ka);
    world.drain_commands();
    assert!(world.entities.get(ka).is_none());
    assert!(world.tick_index.is_empty());
}

#[test]
fn slot_reuse_keeps_dead_key_dead() {
    let mut world: World<Creature> = World::new();
    world.register(CREATURE, creature_caps());
    let ka = world.spawn(CREATURE, Creature::named("a"));
    world.kill(ka);
    world.drain_commands();
    let kb = world.spawn(CREATURE, Creature::named("b"));
    assert_eq!(kb.index, ka.index);
    assert_eq!(kb.generation, ka.generation + 1);
    assert!(world.entities.get(ka).is_none());
    assert_eq!(world.entities.get(kb).unwrap().entity.name, "b");
    assert_eq!(world.tick_index, vec![kb]);
}
