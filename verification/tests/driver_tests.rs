use ale_core::capability::{Capability, CapabilitySet};
use ale_core::command::WorldCommand;
use ale_core::driver::{App, AppError, FrameInput, Genesis};
use ale_core::input::Input;
use ale_core::slotmap::EntityKey;
use ale_core::world::{Entity, World};

const PLAYER: u64 = 7;

struct Player {
    ticks: u64,
    fixed_ticks: u64,
    last_tick_delta: u64,
    inputs_seen: u64,
}

impl Entity for Player {
    type Task = String;

    fn on_spawn(&mut self, _key: EntityKey) {
    }

    fn tick(&mut self, delta_time_micros: u64) -> Vec<WorldCommand<Self>> {
        self.ticks += 1;
        self.last_tick_delta = delta_time_micros;
        vec![]
    }

    fn fixed_tick(&mut self, _delta_time_micros: u64) -> Vec<WorldCommand<Self>> {
        self.fixed_ticks += 1;
        vec![]
    }

    fn input(&mut self, _event: &Input) -> Vec<WorldCommand<Self>> {
        self.inputs_seen += 1;
        vec![]
    }

    fn render_tasks(&mut self) -> Vec<String> {
        vec![format!("frame-{}", self.ticks)]
    }
}

struct Game {
    fail_init: bool,
}

impl Genesis<Player> for Game {
    fn register_components(&self, world: &mut World<Player>) {
        world.register(
            PLAYER,
            CapabilitySet::empty()
                .with(Capability::Tickable)
                .with(Capability::FixedTickable)
                .with(Capability::Inputable)
                .with(Capability::Renderable),
        );
    }

    fn init(&self, world: &mut World<Player>) -> Result<(), AppError> {
        if self.fail_init {
            return Err(AppError);
        }
        world.spawn(
            PLAYER,
            Player { ticks: 0, fixed_ticks: 0, last_tick_delta: 0, inputs_seen: 0 },
        );
        Ok(())
    }
}

#[test]
fn run_produces_one_task_stream_per_frame() {
    let app = App::new(Game { fail_init: false });
    let frames = vec![
        FrameInput { elapsed_micros: 25000, inputs: vec![Input::Char('w')] },
        FrameInput { elapsed_micros: 10000, inputs: vec![] },
        FrameInput { elapsed_micros: 0, inputs: vec![Input::Char('a'), Input::Char('d')] },
    ];
    let streams = app.run(frames).unwrap();
    assert_eq!(streams.len(), 3);
    assert_eq!(streams[0], vec![String::from("frame-1")]);
    assert_eq!(streams[1], vec![String::from("frame-2")]);
    assert_eq!(streams[2], vec![String::from("frame-3")]);
}

#[test]
fn run_drains_fixed_steps_per_frame() {
    // 25000 us against a 10000 us step: two full steps and the 5000 us
    // remainder drain through fixed_tick, while the variable tick sees the
    // frame's whole elapsed time.
    let app = App::new(Game { fail_init: false });
    let frames = vec![FrameInput { elapsed_micros: 25000, inputs: vec![Input::Char('w')] }];
    let mut world: World<Player> = World::new();
    let game = Game { fail_init: false };
    game.register_components(&mut world);
    game.init(&mut world).unwrap();
    let streams = app.run(frames).unwrap();
    assert_eq!(streams.len(), 1);
    // Drive the same frame by hand to observe the entity's counters.
    let mut tick = ale_core::tick::WorldTick::FixedStep(ale_core::tick::FixedStep::new(10000));
    world.dispatch_input(&Input::Char('w'));
    tick.prepare_tick(25000);
    let delta_time = tick.delta_time();
    while tick.should_tick() {
        tick.tick();
        world.dispatch_fixed_tick(tick.delta_time());
    }
    world.dispatch_tick(delta_time);
    let k = world.tick_index[0];
    let player = &world.entities.get(k).unwrap().entity;
    assert_eq!(player.inputs_seen, 1);
    assert_eq!(player.fixed_ticks, 3);
    assert_eq!(player.ticks, 1);
    assert_eq!(player.last_tick_delta, 25000);
}

#[test]
fn run_reports_init_failure() {
    let app = App::new(Game { fail_init: true });
    let frames = vec![FrameInput { elapsed_micros: 10000, inputs: vec![] }];
    assert_eq!(app.run(frames), Err(AppError));
}
