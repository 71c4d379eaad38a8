//! Asset containers: the generational stash that loaders fill, and the
//! keyed resource manager for decoded images, shader sources and audio.
//!
//! Reading files and decoding formats happen outside the library; what
//! arrives here are plain values.

use vstd::prelude::*;
use crate::slotmap::{EntityKey, SlotMap};

verus! {

/// An asset loader the application provides: turns a path into the
/// resources found there, or a typed failure.
pub trait Load: Sized {
    /// What the loader produces.
    type Resource;

    /// Why the loader failed.
    type Err;

    /// Loads every resource stored at a path.
    fn load(&self, path: &str) -> (r: Result<Vec<Self::Resource>, Self::Err>);
}

/// A slot-based asset container: resources are registered under
/// generational keys, with the same stale-handle discipline as the entity
/// store.  The wrappers here restate [`SlotMap`]'s slot-level guarantees
/// over the underlying store, so the store's laws -- the history
/// characterisation of `get` and the reuse-bumps-generation law -- carry
/// over to a stash unchanged.
pub struct Stash<Loader: Load> {
    pub resources: SlotMap<<Loader as Load>::Resource>,
    pub loader: Loader,
}

impl<Loader: Load> Stash<Loader> {
    pub open spec fn wf(self) -> bool {
        self.resources.wf()
    }

    /// Creates an empty stash around a loader.
    pub fn new(loader: Loader) -> (s: Stash<Loader>)
        ensures
            s.wf(),
            s.resources.slots@.len() == 0,
            s.resources.free_list@.len() == 0,
            forall|k: EntityKey| !s.resources.valid_key(k),
            s.loader == loader,
    {
        Stash { resources: SlotMap::new(), loader }
    }

    /// Loads every resource at a path and hands the batch to
    /// [`Self::register_all`], returning its keys in load order.  On
    /// failure nothing changes.  Whatever the loader handed back, every
    /// returned key is valid and distinct, and every key that was valid
    /// before still is, with its resource; what each key stores is
    /// [`Self::register_all`]'s exact contract over the loaded values.
    pub fn load(&mut self, path: &str) -> (r: Result<Vec<EntityKey>, <Loader as Load>::Err>)
        requires
            old(self).wf(),
        ensures
            final(self).wf(),
            final(self).loader == old(self).loader,
            r is Err ==> *final(self) == *old(self),
            forall|k: EntityKey|
                old(self).resources.valid_key(k) ==> final(self).resources.valid_key(k)
                    && final(self).resources.at(k) == old(self).resources.at(k),
            r is Ok ==> forall|i: int|
                0 <= i < r->Ok_0@.len() ==> final(self).resources.valid_key(#[trigger] r->Ok_0@[i]),
            r is Ok ==> forall|i: int, j: int|
                0 <= i < j < r->Ok_0@.len() ==> r->Ok_0@[i] != r->Ok_0@[j],
    {
        let res = match self.loader.load(path) {
            Ok(res) => res,
            Err(e) => {
                return Err(e);
            },
        };
        // The store is addressed by u32 indices; in the unreachable case
        // that this load would overflow them, nothing is registered.
        if res.len() > u32::MAX as usize - self.resources.slots.len() {
            return Ok(Vec::new());
        }
        Ok(self.register_all(res))
    }

    /// Registers a batch of resources, first to last, returning one fresh
    /// key per resource, in order: the key at each position is valid and
    /// answers with the resource that stood there.  This is the
    /// registration step of [`Self::load`], stated over the loaded values.
    pub fn register_all(&mut self, resources: Vec<<Loader as Load>::Resource>) -> (keys: Vec<
        EntityKey,
    >)
        requires
            old(self).wf(),
            old(self).resources.slots@.len() + resources@.len() <= u32::MAX as nat,
        ensures
            final(self).wf(),
            final(self).loader == old(self).loader,
            keys@.len() == resources@.len(),
            forall|i: int|
                0 <= i < keys@.len() ==> final(self).resources.valid_key(#[trigger] keys@[i])
                    && final(self).resources.at(keys@[i]) == resources@[i],
            forall|i: int, j: int| 0 <= i < j < keys@.len() ==> keys@[i] != keys@[j],
            forall|k: EntityKey|
                old(self).resources.valid_key(k) ==> final(self).resources.valid_key(k)
                    && final(self).resources.at(k) == old(self).resources.at(k),
    {
        let ghost all = resources@;
        let ghost pre = *old(self);
        let mut rest = resources;
        let mut keys: Vec<EntityKey> = Vec::new();
        proof {
            assert(rest@ =~= all.skip(0));
        }
        while rest.len() > 0
            invariant
                self.wf(),
                self.loader == pre.loader,
                keys@.len() + rest@.len() == all.len(),
                rest@ == all.skip(keys@.len() as int),
                self.resources.slots@.len() <= pre.resources.slots@.len() + keys@.len(),
                pre.resources.slots@.len() + all.len() <= u32::MAX as nat,
                forall|k: EntityKey|
                    pre.resources.valid_key(k) ==> self.resources.valid_key(k)
                        && self.resources.at(k) == pre.resources.at(k),
                forall|i: int|
                    0 <= i < keys@.len() ==> self.resources.valid_key(#[trigger] keys@[i])
                        && self.resources.at(keys@[i]) == all[i],
                forall|i: int, j: int| 0 <= i < j < keys@.len() ==> keys@[i] != keys@[j],
            decreases rest@.len(),
        {
            let ghost done = keys@.len() as int;
            proof {
                assert(rest@[0] == all[done]);
            }
            let resource = rest.remove(0);
            let ghost before = self.resources;
            let k = self.resources.insert(resource);
            keys.push(k);
            proof {
                assert(rest@ =~= all.skip(done + 1));
                assert forall|i: int|
                    0 <= i < keys@.len() implies self.resources.valid_key(#[trigger] keys@[i])
                    && self.resources.at(keys@[i]) == all[i] by {
                    if i < keys@.len() - 1 {
                        assert(before.valid_key(keys@[i]));
                        assert(before.at(keys@[i]) == all[i]);
                    }
                }
                assert forall|i: int, j: int|
                    0 <= i < j < keys@.len() implies keys@[i] != keys@[j] by {
                    if j == keys@.len() - 1 {
                        assert(before.valid_key(keys@[i]));
                        assert(!before.valid_key(k));
                    }
                }
            }
        }
        proof {
            assert(all.skip(all.len() as int).len() == 0);
        }
        keys
    }

    /// Registers one resource, returning its fresh key.  The underlying
    /// store follows the same discipline [`SlotMap::insert`] states: a
    /// recyclable freed slot is reused one generation up (the freshest
    /// first), else a fresh slot is appended at generation zero.
    pub fn register(&mut self, resource: <Loader as Load>::Resource) -> (k: EntityKey)
        requires
            old(self).wf(),
            old(self).resources.slots@.len() < u32::MAX as nat,
        ensures
            final(self).wf(),
            final(self).loader == old(self).loader,
            !old(self).resources.valid_key(k),
            final(self).resources.valid_key(k),
            final(self).resources.at(k) == resource,
            forall|k2: EntityKey|
                k2 != k ==> final(self).resources.valid_key(k2) == old(self).resources.valid_key(
                    k2,
                ),
            forall|k2: EntityKey|
                k2 != k && old(self).resources.valid_key(k2) ==> final(self).resources.at(k2)
                    == old(self).resources.at(k2),
            // Reuse of a freed slot: same index, generation bumped by one.
            (k.index as int) < old(self).resources.slots@.len() ==> {
                &&& !old(self).resources.slots@[k.index as int].state.is_occupied()
                &&& k.generation == old(self).resources.slots@[k.index as int].generation + 1
                &&& final(self).resources.slots@ == old(self).resources.slots@.update(
                    k.index as int,
                    crate::slotmap::Slot {
                        generation: k.generation,
                        state: crate::slotmap::SlotState::Occupied(resource),
                    },
                )
            },
            // Fresh slot appended at the end, generation zero.
            (k.index as int) >= old(self).resources.slots@.len() ==> {
                &&& k.index as int == old(self).resources.slots@.len()
                &&& k.generation == 0
                &&& final(self).resources.slots@ == old(self).resources.slots@.push(
                    crate::slotmap::Slot {
                        generation: 0,
                        state: crate::slotmap::SlotState::Occupied(resource),
                    },
                )
            },
            old(self).resources.free_list@.len() == 0 ==> k.index as int == old(
                self,
            ).resources.slots@.len(),
            (exists|j: int|
                0 <= j < old(self).resources.free_list@.len() && (
                #[trigger] old(self).resources.slots@[old(
                    self,
                ).resources.free_list@[j] as int]).generation < u32::MAX) ==> (k.index as int)
                < old(self).resources.slots@.len(),
            old(self).resources.free_list@.len() > 0 && old(self).resources.slots@[old(
                self,
            ).resources.free_list@.last() as int].generation < u32::MAX ==> k.index == old(
                self,
            ).resources.free_list@.last(),
            final(self).resources.free_list@.len() <= old(self).resources.free_list@.len(),
            final(self).resources.free_list@ == old(self).resources.free_list@.take(
                final(self).resources.free_list@.len() as int,
            ),
            crate::slotmap::insert_step(
                old(self).resources,
                resource,
                final(self).resources,
                k,
            ),
            forall|k2: EntityKey|
                old(self).resources.retired(k2) ==> final(self).resources.retired(k2) && k2 != k,
    {
        let ghost pre = old(self).resources;
        let k = self.resources.insert(resource);
        proof {
            assert forall|k2: EntityKey|
                pre.retired(k2) implies self.resources.retired(k2) && k2 != k by {}
        }
        k
    }

    /// Looks a key up; a stale key misses.
    pub fn get(&self, key: EntityKey) -> (r: Option<&<Loader as Load>::Resource>)
        ensures
            r.is_some() <==> self.resources.valid_key(key),
            r.is_some() ==> *r.unwrap() == self.resources.at(key),
    {
        self.resources.get(key)
    }

    /// Looks a key up for mutation; a stale key misses and nothing changes.
    pub fn get_mut(&mut self, key: EntityKey) -> (r: Option<&mut <Loader as Load>::Resource>)
        ensures
            r.is_some() <==> old(self).resources.valid_key(key),
            !old(self).resources.valid_key(key) ==> *final(self) == *old(self),
            old(self).resources.valid_key(key) ==> {
                &&& *r.unwrap() == old(self).resources.at(key)
                &&& final(self).loader == old(self).loader
                &&& final(self).resources.slots@ == old(self).resources.slots@.update(
                    key.index as int,
                    crate::slotmap::Slot {
                        generation: key.generation,
                        state: crate::slotmap::SlotState::Occupied(*final(r.unwrap())),
                    },
                )
                &&& final(self).resources.free_list == old(self).resources.free_list
            },
    {
        self.resources.get_mut(key)
    }

    /// Frees the slot behind a valid key; a stale key changes nothing.
    /// Storage never shrinks: the freed slot stays, under its generation,
    /// and its index joins the free list.
    pub fn remove(&mut self, key: EntityKey)
        requires
            old(self).wf(),
        ensures
            final(self).wf(),
            final(self).loader == old(self).loader,
            !old(self).resources.valid_key(key) ==> *final(self) == *old(self),
            !final(self).resources.valid_key(key),
            forall|k2: EntityKey|
                k2 != key ==> final(self).resources.valid_key(k2) == old(self).resources.valid_key(
                    k2,
                ),
            forall|k2: EntityKey|
                k2 != key && old(self).resources.valid_key(k2) ==> final(self).resources.at(k2)
                    == old(self).resources.at(k2),
            final(self).resources.slots@.len() == old(self).resources.slots@.len(),
            old(self).resources.valid_key(key) ==> {
                &&& final(self).resources.slots@ == old(self).resources.slots@.update(
                    key.index as int,
                    crate::slotmap::Slot {
                        generation: key.generation,
                        state: crate::slotmap::SlotState::Free,
                    },
                )
                &&& final(self).resources.free_list@ == old(self).resources.free_list@.push(
                    key.index,
                )
                &&& final(self).resources.retired(key)
            },
            crate::slotmap::remove_step(old(self).resources, key, final(self).resources),
    {
        let removed = self.resources.remove(key);
        proof {
            if !removed {
            } else {
                assert forall|k2: EntityKey|
                    k2 != key implies final(self).resources.valid_key(k2)
                    == old(self).resources.valid_key(k2) by {
                    if k2.index == key.index {
                        assert(old(self).resources.slots@[key.index as int].generation
                            == key.generation);
                    }
                }
            }
        }
    }

    /// The keys of every stored resource, in index order.
    pub fn keys(&self) -> (ks: Vec<EntityKey>)
        requires
            self.wf(),
        ensures
            ks@ == self.resources.live_keys(),
    {
        self.resources.keys()
    }
}

/// A name-keyed table holds a key at most once.
pub open spec fn table_wf<V>(t: Seq<(String, V)>) -> bool {
    forall|i: int, j: int| 0 <= i < j < t.len() ==> t[i].0@ != t[j].0@
}

/// Whether a table holds an entry under a name.
pub open spec fn table_contains<V>(t: Seq<(String, V)>, key: Seq<char>) -> bool {
    exists|i: int| 0 <= i < t.len() && t[i].0@ == key
}

/// The entry a table holds under a name.
pub open spec fn table_at<V>(t: Seq<(String, V)>, key: Seq<char>) -> V
    recommends
        table_contains(t, key),
{
    t[choose|i: int| 0 <= i < t.len() && t[i].0@ == key].1
}

proof fn lemma_table_at_entry<V>(t: Seq<(String, V)>, key: Seq<char>, i: int)
    requires
        table_wf(t),
        0 <= i < t.len(),
        t[i].0@ == key,
    ensures
        table_contains(t, key),
        table_at(t, key) == t[i].1,
{
    let j = choose|j: int| 0 <= j < t.len() && t[j].0@ == key;
    if j < i {
        assert(t[j].0@ != t[i].0@);
    }
    if i < j {
        assert(t[i].0@ != t[j].0@);
    }
}

/// Linear lookup of a name in a keyed table.
fn table_get<'a, V>(t: &'a Vec<(String, V)>, key: &str) -> (r: Option<&'a V>)
    requires
        table_wf(t@),
    ensures
        r.is_some() <==> table_contains(t@, key@),
        r.is_some() ==> *r.unwrap() == table_at(t@, key@),
{
    let owned = key.to_owned();
    let mut i: usize = 0;
    while i < t.len()
        invariant
            table_wf(t@),
            owned@ == key@,
            i <= t@.len(),
            forall|j: int| 0 <= j < i ==> t@[j].0@ != key@,
        decreases t@.len() - i,
    {
        if t[i].0 == owned {
            proof {
                lemma_table_at_entry(t@, key@, i as int);
            }
            return Some(&t[i].1);
        }
        i += 1;
    }
    proof {
        if table_contains(t@, key@) {
            let j = choose|j: int| 0 <= j < t@.len() && t@[j].0@ == key@;
            assert(t@[j].0@ != key@);
        }
    }
    None
}

/// Stores an entry under a name, replacing an entry of the same name: the
/// last write wins, every other entry stays.
fn table_store<V>(t: &mut Vec<(String, V)>, key: &str, value: V)
    requires
        table_wf(old(t)@),
    ensures
        table_wf(final(t)@),
        table_contains(final(t)@, key@),
        table_at(final(t)@, key@) == value,
        forall|k2: Seq<char>|
            k2 != key@ ==> table_contains(final(t)@, k2) == table_contains(old(t)@, k2),
        forall|k2: Seq<char>|
            k2 != key@ && table_contains(old(t)@, k2) ==> table_at(final(t)@, k2) == table_at(
                old(t)@,
                k2,
            ),
    {
    let ghost pre = old(t)@;
    let owned = key.to_owned();
    let mut i: usize = 0;
    while i < t.len()
        invariant
            t@ == pre,
            pre == old(t)@,
            table_wf(pre),
            owned@ == key@,
            i <= pre.len(),
            forall|j: int| 0 <= j < i ==> pre[j].0@ != key@,
        decreases pre.len() - i,
    {
        if t[i].0 == owned {
            t[i] = (owned, value);
            proof {
                assert(t@ =~= pre.update(i as int, (t@[i as int].0, value)));
                assert(t@[i as int].0@ == key@);
                assert forall|i2: int, j2: int| 0 <= i2 < j2 < t@.len() implies t@[i2].0@
                    != t@[j2].0@ by {
                    assert(pre[i2].0@ != pre[j2].0@);
                }
                lemma_table_at_entry(t@, key@, i as int);
                assert forall|k2: Seq<char>| k2 != key@ implies table_contains(t@, k2)
                    == table_contains(pre, k2) by {
                    if table_contains(t@, k2) {
                        let j = choose|j: int| 0 <= j < t@.len() && t@[j].0@ == k2;
                        assert(pre[j].0@ == k2);
                    }
                    if table_contains(pre, k2) {
                        let j = choose|j: int| 0 <= j < pre.len() && pre[j].0@ == k2;
                        assert(t@[j].0@ == k2);
                    }
                }
                assert forall|k2: Seq<char>|
                    k2 != key@ && table_contains(pre, k2) implies table_at(t@, k2) == table_at(
                    pre,
                    k2,
                ) by {
                    let j = choose|j: int| 0 <= j < pre.len() && pre[j].0@ == k2;
                    assert(t@[j].0@ == k2);
                    lemma_table_at_entry(t@, k2, j);
                    lemma_table_at_entry(pre, k2, j);
                }
            }
            return ;
        }
        i += 1;
    }
    t.push((owned, value));
    proof {
        assert(t@ =~= pre.push((t@[pre.len() as int].0, value)));
        assert(t@[pre.len() as int].0@ == key@);
        assert forall|i2: int, j2: int| 0 <= i2 < j2 < t@.len() implies t@[i2].0@ != t@[j2].0@ by {
            if j2 < pre.len() {
                assert(pre[i2].0@ != pre[j2].0@);
            } else {
                assert(pre[i2].0@ != key@);
            }
        }
        lemma_table_at_entry(t@, key@, pre.len() as int);
        assert forall|k2: Seq<char>| k2 != key@ implies table_contains(t@, k2) == table_contains(
            pre,
            k2,
        ) by {
            if table_contains(t@, k2) {
                let j = choose|j: int| 0 <= j < t@.len() && t@[j].0@ == k2;
                assert(j < pre.len());
                assert(pre[j].0@ == k2);
            }
            if table_contains(pre, k2) {
                let j = choose|j: int| 0 <= j < pre.len() && pre[j].0@ == k2;
                assert(t@[j].0@ == k2);
            }
        }
        assert forall|k2: Seq<char>|
            k2 != key@ && table_contains(pre, k2) implies table_at(t@, k2) == table_at(
            pre,
            k2,
        ) by {
            let j = choose|j: int| 0 <= j < pre.len() && pre[j].0@ == k2;
            assert(t@[j].0@ == k2);
            lemma_table_at_entry(t@, k2, j);
            lemma_table_at_entry(pre, k2, j);
        }
    }
}

/// The sources of one GLSL program.
#[derive(Debug)]
pub struct ResourceGlslFile {
    pub vertex_shader: String,
    pub fragment_shader: String,
}

/// A decoded raster image: its dimensions and its raw pixel bytes.
#[derive(Debug)]
pub struct ResourceImageFile {
    pub width: u32,
    pub height: u32,
    pub pixels: Vec<u8>,
}

/// A loaded audio clip, as raw bytes.
#[derive(Debug)]
pub struct ResourceAudioFile {
    pub audio: Vec<u8>,
}

/// Decoded assets keyed by name: images, GLSL programs and audio clips.
/// Files are read and decoded outside the library; what is stored here are
/// their plain contents.
pub struct ResourceManager {
    pub images: Vec<(String, ResourceImageFile)>,
    pub glsl: Vec<(String, ResourceGlslFile)>,
    pub audios: Vec<(String, ResourceAudioFile)>,
}

impl ResourceManager {
    pub open spec fn wf(self) -> bool {
        &&& table_wf(self.images@)
        &&& table_wf(self.glsl@)
        &&& table_wf(self.audios@)
    }

    /// Creates an empty manager.
    pub fn new() -> (m: ResourceManager)
        ensures
            m.wf(),
            forall|k: Seq<char>| !table_contains(m.images@, k),
            forall|k: Seq<char>| !table_contains(m.glsl@, k),
            forall|k: Seq<char>| !table_contains(m.audios@, k),
    {
        ResourceManager { images: Vec::new(), glsl: Vec::new(), audios: Vec::new() }
    }

    /// Stores a decoded image under a name, replacing a previous image of
    /// that name.
    pub fn load_image(&mut self, key: &str, image: ResourceImageFile)
        requires
            old(self).wf(),
        ensures
            final(self).wf(),
            table_contains(final(self).images@, key@),
            table_at(final(self).images@, key@) == image,
            forall|k2: Seq<char>|
                k2 != key@ ==> table_contains(final(self).images@, k2) == table_contains(
                    old(self).images@,
                    k2,
                ),
            forall|k2: Seq<char>|
                k2 != key@ && table_contains(old(self).images@, k2) ==> table_at(
                    final(self).images@,
                    k2,
                ) == table_at(old(self).images@, k2),
            final(self).glsl == old(self).glsl,
            final(self).audios == old(self).audios,
    {
        table_store(&mut self.images, key, image);
    }

    /// The image stored under a name, if any.
    pub fn get_image(&self, key: &str) -> (r: Option<&ResourceImageFile>)
        requires
            self.wf(),
        ensures
            r.is_some() <==> table_contains(self.images@, key@),
            r.is_some() ==> *r.unwrap() == table_at(self.images@, key@),
    {
        table_get(&self.images, key)
    }

    /// Stores a GLSL program's two shader sources under a name.
    pub fn load_glsl(&mut self, key: &str, vertex_shader: String, fragment_shader: String)
        requires
            old(self).wf(),
        ensures
            final(self).wf(),
            table_contains(final(self).glsl@, key@),
            table_at(final(self).glsl@, key@) == (ResourceGlslFile {
                vertex_shader,
                fragment_shader,
            }),
            forall|k2: Seq<char>|
                k2 != key@ ==> table_contains(final(self).glsl@, k2) == table_contains(
                    old(self).glsl@,
                    k2,
                ),
            forall|k2: Seq<char>|
                k2 != key@ && table_contains(old(self).glsl@, k2) ==> table_at(
                    final(self).glsl@,
                    k2,
                ) == table_at(old(self).glsl@, k2),
            final(self).images == old(self).images,
            final(self).audios == old(self).audios,
    {
        table_store(&mut self.glsl, key, ResourceGlslFile { vertex_shader, fragment_shader });
    }

    /// The GLSL program stored under a name, if any.
    pub fn get_glsl(&self, key: &str) -> (r: Option<&ResourceGlslFile>)
        requires
            self.wf(),
        ensures
            r.is_some() <==> table_contains(self.glsl@, key@),
            r.is_some() ==> *r.unwrap() == table_at(self.glsl@, key@),
    {
        table_get(&self.glsl, key)
    }

    /// Stores an audio clip's bytes under a name.
    pub fn load_audio(&mut self, key: &str, audio: Vec<u8>)
        requires
            old(self).wf(),
        ensures
            final(self).wf(),
            table_contains(final(self).audios@, key@),
            table_at(final(self).audios@, key@) == (ResourceAudioFile { audio }),
            forall|k2: Seq<char>|
                k2 != key@ ==> table_contains(final(self).audios@, k2) == table_contains(
                    old(self).audios@,
                    k2,
                ),
            forall|k2: Seq<char>|
                k2 != key@ && table_contains(old(self).audios@, k2) ==> table_at(
                    final(self).audios@,
                    k2,
                ) == table_at(old(self).audios@, k2),
            final(self).images == old(self).images,
            final(self).glsl == old(self).glsl,
    {
        table_store(&mut self.audios, key, ResourceAudioFile { audio });
    }

    /// The audio clip stored under a name, if any.
    pub fn get_audio(&self, key: &str) -> (r: Option<&ResourceAudioFile>)
        requires
            self.wf(),
        ensures
            r.is_some() <==> table_contains(self.audios@, key@),
            r.is_some() ==> *r.unwrap() == table_at(self.audios@, key@),
    {
        table_get(&self.audios, key)
    }
}

} // verus!
