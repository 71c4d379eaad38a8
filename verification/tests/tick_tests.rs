use ale_core::tick::{FixedStep, WorldTick};

#[test]
fn new_clock_is_drained() {
    let t = FixedStep::new(10000);
    assert!(!t.should_tick());
    assert_eq!(t.tick_delta_time(), 0);
}

#[test]
fn prepare_tick_fills_accumulator() {
    let mut t = FixedStep::new(10000);
    t.prepare_tick(25000);
    assert!(t.should_tick());
    assert_eq!(t.tick_delta_time(), 25000);
}

#[test]
fn tick_consumes_full_steps_then_remainder() {
    let mut t = FixedStep::new(10000);
    t.prepare_tick(25000);
    let mut deltas = vec![];
    while t.should_tick() {
        t.tick();
        deltas.push(t.tick_delta_time());
    }
    assert_eq!(deltas, vec![10000, 10000, 5000]);
    assert!(!t.should_tick());
}

#[test]
fn exact_multiple_drains_in_full_steps() {
    let mut t = FixedStep::new(10000);
    t.prepare_tick(20000);
    let mut count = 0;
    while t.should_tick() {
        t.tick();
        assert_eq!(t.tick_delta_time(), 10000);
        count += 1;
    }
    assert_eq!(count, 2);
}

#[test]
fn world_tick_wraps_fixed_step() {
    let mut t = WorldTick::FixedStep(FixedStep::new(10000));
    assert!(!t.should_tick());
    t.prepare_tick(12000);
    assert_eq!(t.delta_time(), 12000);
    t.tick();
    assert_eq!(t.delta_time(), 10000);
    assert!(t.should_tick());
    t.tick();
    assert_eq!(t.delta_time(), 2000);
    assert!(!t.should_tick());
}
