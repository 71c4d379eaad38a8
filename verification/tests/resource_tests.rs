use ale_core::resources::{
    Load, ResourceAudioFile, ResourceGlslFile, ResourceImageFile, ResourceManager, Stash,
};
use ale_core::slotmap::EntityKey;

struct SplitLoader;

impl Load for SplitLoader {
    type Resource = String;
    type Err = String;

    fn load(&self, path: &str) -> Result<Vec<String>, String> {
        if path.is_empty() {
            return Err(String::from("empty path"));
        }
        Ok(vec![format!("{}-a", path), format!("{}-b", path)])
    }
}

#[test]
fn stash_load_registers_every_loaded_resource() {
    let mut stash = Stash::new(SplitLoader);
    let keys = stash.load("tree").unwrap();
    assert_eq!(keys.len(), 2);
    assert_eq!(stash.get(keys[0]), Some(&String::from("tree-a")));
    assert_eq!(stash.get(keys[1]), Some(&String::from("tree-b")));
}

#[test]
fn stash_load_failure_changes_nothing() {
    let mut stash = Stash::new(SplitLoader);
    let keys = stash.load("rock").unwrap();
    let r = stash.load("");
    assert_eq!(r, Err(String::from("empty path")));
    assert_eq!(stash.keys(), keys);
    assert_eq!(stash.get(keys[0]), Some(&String::from("rock-a")));
}

#[test]
fn stash_register_get_remove_follow_key_discipline() {
    let mut stash = Stash::new(SplitLoader);
    let k = stash.register(String::from("one"));
    assert_eq!(stash.get(k), Some(&String::from("one")));
    match stash.get_mut(k) {
        Some(v) => *v = String::from("two"),
        None => panic!("key should be valid"),
    }
    assert_eq!(stash.get(k), Some(&String::from("two")));
    stash.remove(k);
    assert_eq!(stash.get(k), None);
    // Freed index is reused one generation up; the stale key stays dead.
    let k2 = stash.register(String::from("three"));
    assert_eq!(k2, EntityKey { index: k.index, generation: k.generation + 1 });
    assert_eq!(stash.get(k), None);
    assert_eq!(stash.get(k2), Some(&String::from("three")));
}

#[test]
fn stash_scenario_reuses_freed_index_one_generation_up() {
    // The same generational discipline as the entity store: "a" and "b"
    // take the first two slots, freeing "a" makes the next registration
    // land on index 0 at generation 1, and the stale key stays dead.
    let mut stash = Stash::new(SplitLoader);
    let ka = stash.register(String::from("a"));
    assert_eq!(ka, EntityKey { index: 0, generation: 0 });
    let kb = stash.register(String::from("b"));
    assert_eq!(kb, EntityKey { index: 1, generation: 0 });
    stash.remove(ka);
    let kc = stash.register(String::from("c"));
    assert_eq!(kc, EntityKey { index: 0, generation: 1 });
    assert_eq!(stash.get(EntityKey { index: 0, generation: 0 }), None);
    assert_eq!(stash.get(EntityKey { index: 0, generation: 1 }), Some(&String::from("c")));
    assert_eq!(stash.get(EntityKey { index: 1, generation: 0 }), Some(&String::from("b")));
}

#[test]
fn register_all_keys_answer_in_order() {
    let mut stash = Stash::new(SplitLoader);
    let keys = stash.register_all(vec![
        String::from("x"),
        String::from("y"),
        String::from("z"),
    ]);
    assert_eq!(keys.len(), 3);
    assert_eq!(stash.get(keys[0]), Some(&String::from("x")));
    assert_eq!(stash.get(keys[1]), Some(&String::from("y")));
    assert_eq!(stash.get(keys[2]), Some(&String::from("z")));
    // A later batch reuses nothing and leaves the first batch alone.
    let more = stash.register_all(vec![String::from("w")]);
    assert_eq!(stash.get(more[0]), Some(&String::from("w")));
    assert_eq!(stash.get(keys[1]), Some(&String::from("y")));
}

#[test]
fn manager_stores_images_by_name() {
    let mut m = ResourceManager::new();
    assert!(m.get_image("hero").is_none());
    m.load_image("hero", ResourceImageFile { width: 2, height: 2, pixels: vec![1, 2, 3, 4] });
    let img = m.get_image("hero").unwrap();
    assert_eq!(img.width, 2);
    assert_eq!(img.pixels, vec![1, 2, 3, 4]);
    // The last write under a name wins.
    m.load_image("hero", ResourceImageFile { width: 1, height: 1, pixels: vec![9] });
    assert_eq!(m.get_image("hero").unwrap().pixels, vec![9]);
    assert!(m.get_image("villain").is_none());
}

#[test]
fn manager_stores_glsl_and_audio_independently() {
    let mut m = ResourceManager::new();
    m.load_glsl("basic", String::from("vertex src"), String::from("fragment src"));
    m.load_audio("theme", vec![7, 8, 9]);
    let glsl: &ResourceGlslFile = m.get_glsl("basic").unwrap();
    assert_eq!(glsl.vertex_shader, "vertex src");
    assert_eq!(glsl.fragment_shader, "fragment src");
    let audio: &ResourceAudioFile = m.get_audio("theme").unwrap();
    assert_eq!(audio.audio, vec![7, 8, 9]);
    assert!(m.get_glsl("theme").is_none());
    assert!(m.get_audio("basic").is_none());
    assert!(m.get_image("basic").is_none());
}
