use ale_core::capability::{Capability, CapabilityRegistry, CapabilitySet};
use ale_core::input::{Action, Input, Key, Modifier, MouseButton};

#[test]
fn empty_set_has_no_capability() {
    let s = CapabilitySet::empty();
    assert!(!s.has(Capability::Tickable));
    assert!(!s.has(Capability::FixedTickable));
    assert!(!s.has(Capability::Inputable));
    assert!(!s.has(Capability::Renderable));
    assert!(!s.has(Capability::Spawnable));
}

#[test]
fn with_adds_exactly_one_capability() {
    let s = CapabilitySet::empty().with(Capability::Renderable);
    assert!(s.has(Capability::Renderable));
    assert!(!s.has(Capability::Tickable));
    let s2 = s.with(Capability::Spawnable);
    assert!(s2.has(Capability::Renderable));
    assert!(s2.has(Capability::Spawnable));
}

#[test]
fn registry_is_idempotent_with_last_write_winning() {
    let mut r = CapabilityRegistry::new();
    r.register(4, CapabilitySet::empty().with(Capability::Tickable));
    r.register(4, CapabilitySet::empty().with(Capability::Renderable));
    let s = r.capabilities_of(4);
    assert!(!s.has(Capability::Tickable));
    assert!(s.has(Capability::Renderable));
    assert_eq!(r.capabilities_of(5), CapabilitySet::empty());
}

#[test]
fn input_events_compare_by_structure() {
    let m = Modifier::none();
    let a = Input::Key(Key::W, 17, Action::Press, m);
    let b = Input::Key(Key::W, 17, Action::Press, m);
    assert_eq!(a, b);
    assert_ne!(a, Input::Key(Key::W, 17, Action::Release, m));
    assert_ne!(
        Input::MouseButton(MouseButton::ButtonLeft, Action::Press, m),
        Input::MouseButton(MouseButton::ButtonRight, Action::Press, m)
    );
}
