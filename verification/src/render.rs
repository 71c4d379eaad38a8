//! The render core: the context that maps resource identifiers to their
//! uploaded draw handles, the queue of render tasks, and its resolution
//! into draw calls.
//!
//! Uploading buffers, compiling shaders and issuing draw calls are the
//! graphics backend's work, outside the library; here live the bookkeeping
//! and the decisions -- which queued task is drawable, in what order, and
//! which error a failed shader build reports.

use std::collections::HashMap;
use vstd::prelude::*;

verus! {

broadcast use vstd::std_specs::hash::group_hash_axioms;

/// The draw handles of one uploaded static mesh.
#[derive(Clone, Copy, PartialEq, Eq, Debug, Structural)]
pub struct StaticMeshDrawInfo {
    pub vao: u32,
    pub vbo: u32,
    pub ebo: Option<u32>,
    pub draw_size: u32,
}

/// The handle of one linked shader program.
#[derive(Clone, Copy, PartialEq, Eq, Debug, Structural)]
pub struct ShaderDrawInfo {
    pub shader: u32,
}

/// The handle of one uploaded texture.
#[derive(Clone, Copy, PartialEq, Eq, Debug, Structural)]
pub struct TextureDrawInfo {
    pub texture: u32,
}

/// The handle of one uploaded cubemap.
#[derive(Clone, Copy, PartialEq, Eq, Debug, Structural)]
pub struct CubemapDrawInfo {
    pub cubemap: u32,
}

/// The failure of a cubemap upload.
#[derive(Clone, Copy, PartialEq, Eq, Debug, Structural)]
pub struct CubemapError;

/// The failure of a buffer upload.
#[derive(Clone, Copy, PartialEq, Eq, Debug, Structural)]
pub struct CreateBufferError;

/// The failure of a texture upload.
#[derive(Clone, Copy, PartialEq, Eq, Debug, Structural)]
pub struct CreateTextureError;

/// Why a shader program failed to build: the stage that failed first,
/// with that stage's log.
#[derive(PartialEq, Eq, Debug)]
pub enum CreateShaderError {
    VertexShaderError(String),
    FragmentShaderError(String),
    LinkingShaderError(String),
}

/// The failure of preparing a static mesh to draw.
#[derive(Clone, Copy, PartialEq, Eq, Debug, Structural)]
pub enum StaticMeshError {
    CreateBufferError(CreateBufferError),
}

impl From<CreateBufferError> for StaticMeshError {
    fn from(error: CreateBufferError) -> Self {
        StaticMeshError::CreateBufferError(error)
    }
}

impl vstd::std_specs::convert::FromSpecImpl<CreateBufferError> for StaticMeshError {
    open spec fn obeys_from_spec() -> bool {
        true
    }

    open spec fn from_spec(t: CreateBufferError) -> Self {
        StaticMeshError::CreateBufferError(t)
    }
}

/// The failure of preparing a shader to draw.
#[derive(PartialEq, Eq, Debug)]
pub enum ShaderError {
    CompilationError(CreateShaderError),
}

impl From<CreateShaderError> for ShaderError {
    fn from(error: CreateShaderError) -> Self {
        ShaderError::CompilationError(error)
    }
}

impl vstd::std_specs::convert::FromSpecImpl<CreateShaderError> for ShaderError {
    open spec fn obeys_from_spec() -> bool {
        true
    }

    open spec fn from_spec(t: CreateShaderError) -> Self {
        ShaderError::CompilationError(t)
    }
}

/// The failure of preparing a texture to draw.
#[derive(Clone, Copy, PartialEq, Eq, Debug, Structural)]
pub enum TextureError {
    CreateTextureError(CreateTextureError),
}

impl From<CreateTextureError> for TextureError {
    fn from(e: CreateTextureError) -> Self {
        TextureError::CreateTextureError(e)
    }
}

impl vstd::std_specs::convert::FromSpecImpl<CreateTextureError> for TextureError {
    open spec fn obeys_from_spec() -> bool {
        true
    }

    open spec fn from_spec(t: CreateTextureError) -> Self {
        TextureError::CreateTextureError(t)
    }
}

/// The decision the shader builder takes from its three stage outcomes:
/// the first failing stage wins, in the order vertex compile, fragment
/// compile, link; its log rides along in the error.  Running the compiler
/// is the graphics backend's work; this fixes which error is reported.
pub fn shader_build_outcome(
    vertex_ok: bool,
    vertex_log: String,
    fragment_ok: bool,
    fragment_log: String,
    link_ok: bool,
    link_log: String,
) -> (r: Result<(), CreateShaderError>)
    ensures
        !vertex_ok ==> r == Result::<(), CreateShaderError>::Err(
            CreateShaderError::VertexShaderError(vertex_log),
        ),
        vertex_ok && !fragment_ok ==> r == Result::<(), CreateShaderError>::Err(
            CreateShaderError::FragmentShaderError(fragment_log),
        ),
        vertex_ok && fragment_ok && !link_ok ==> r == Result::<(), CreateShaderError>::Err(
            CreateShaderError::LinkingShaderError(link_log),
        ),
        vertex_ok && fragment_ok && link_ok ==> r == Result::<(), CreateShaderError>::Ok(()),
{
    if !vertex_ok {
        Err(CreateShaderError::VertexShaderError(vertex_log))
    } else if !fragment_ok {
        Err(CreateShaderError::FragmentShaderError(fragment_log))
    } else if !link_ok {
        Err(CreateShaderError::LinkingShaderError(link_log))
    } else {
        Ok(())
    }
}

/// The draw handles uploaded so far, keyed by resource identifier.
pub struct Context {
    pub static_meshes: HashMap<u64, StaticMeshDrawInfo>,
    pub shaders: HashMap<u64, ShaderDrawInfo>,
    pub textures: HashMap<u64, TextureDrawInfo>,
}

impl Context {
    /// Creates an empty context.
    pub fn new() -> (c: Context)
        ensures
            c.static_meshes@ == Map::<u64, StaticMeshDrawInfo>::empty(),
            c.shaders@ == Map::<u64, ShaderDrawInfo>::empty(),
            c.textures@ == Map::<u64, TextureDrawInfo>::empty(),
    {
        Context { static_meshes: HashMap::new(), shaders: HashMap::new(), textures: HashMap::new() }
    }

    /// Records one uploaded static mesh under its resource identifier.
    pub fn static_mesh(&mut self, mesh_id: u64, info: StaticMeshDrawInfo)
        ensures
            final(self).static_meshes@ == old(self).static_meshes@.insert(mesh_id, info),
            final(self).shaders == old(self).shaders,
            final(self).textures == old(self).textures,
    {
        self.static_meshes.insert(mesh_id, info);
    }

    /// Records one linked shader under its resource identifier.
    pub fn shader(&mut self, shader_id: u64, info: ShaderDrawInfo)
        ensures
            final(self).shaders@ == old(self).shaders@.insert(shader_id, info),
            final(self).static_meshes == old(self).static_meshes,
            final(self).textures == old(self).textures,
    {
        self.shaders.insert(shader_id, info);
    }

    /// Records one uploaded texture under its resource identifier.
    pub fn texture(&mut self, texture_id: u64, info: TextureDrawInfo)
        ensures
            final(self).textures@ == old(self).textures@.insert(texture_id, info),
            final(self).static_meshes == old(self).static_meshes,
            final(self).shaders == old(self).shaders,
    {
        self.textures.insert(texture_id, info);
    }

    /// The draw handles of a mesh, if it was uploaded.
    pub fn get_static_mesh(&self, mesh_id: u64) -> (r: Option<&StaticMeshDrawInfo>)
        ensures
            r.is_some() <==> self.static_meshes@.contains_key(mesh_id),
            r.is_some() ==> *r.unwrap() == self.static_meshes@[mesh_id],
    {
        self.static_meshes.get(&mesh_id)
    }

    /// The handle of a shader, if it was linked.
    pub fn get_shader(&self, shader_id: u64) -> (r: Option<&ShaderDrawInfo>)
        ensures
            r.is_some() <==> self.shaders@.contains_key(shader_id),
            r.is_some() ==> *r.unwrap() == self.shaders@[shader_id],
    {
        self.shaders.get(&shader_id)
    }

    /// The handle of a texture, if it was uploaded.
    pub fn get_texture(&self, texture_id: u64) -> (r: Option<&TextureDrawInfo>)
        ensures
            r.is_some() <==> self.textures@.contains_key(texture_id),
            r.is_some() ==> *r.unwrap() == self.textures@[texture_id],
    {
        self.textures.get(&texture_id)
    }
}

/// One queued render task.  The payload carries what the backend needs
/// beyond the identifiers -- the transform and the shader variables.
pub enum Renderable<P> {
    StaticMesh { shader_id: u64, mesh_id: u64, payload: P },
}

/// One resolved draw call: the queue position it came from, and the draw
/// handles to bind.
#[derive(Clone, Copy, PartialEq, Eq, Debug, Structural)]
pub struct DrawCall {
    pub item_index: usize,
    pub vao: u32,
    pub ebo: Option<u32>,
    pub draw_size: u32,
    pub shader: u32,
}

/// The resolution of a task queue against the uploaded handles: each task
/// whose mesh and shader are both known becomes a draw call, in queue
/// order; a task with an unknown mesh or shader is skipped silently.
pub open spec fn resolve_spec<P>(
    meshes: Map<u64, StaticMeshDrawInfo>,
    shaders: Map<u64, ShaderDrawInfo>,
    items: Seq<Renderable<P>>,
) -> Seq<DrawCall>
    decreases items.len(),
{
    if items.len() == 0 {
        Seq::empty()
    } else {
        let rest = resolve_spec(meshes, shaders, items.drop_last());
        match items.last() {
            Renderable::StaticMesh { shader_id, mesh_id, payload } => {
                if meshes.contains_key(mesh_id) && shaders.contains_key(shader_id) {
                    rest.push(
                        DrawCall {
                            item_index: (items.len() - 1) as usize,
                            vao: meshes[mesh_id].vao,
                            ebo: meshes[mesh_id].ebo,
                            draw_size: meshes[mesh_id].draw_size,
                            shader: shaders[shader_id].shader,
                        },
                    )
                } else {
                    rest
                }
            },
        }
    }
}

/// The render task queue: entities push tasks during the render dispatch,
/// the backend resolves and draws them once per frame.
pub struct SimpleRenderTasks<P> {
    pub renderables: Vec<Renderable<P>>,
}

impl<P> SimpleRenderTasks<P> {
    /// Creates an empty queue.
    pub fn new() -> (t: SimpleRenderTasks<P>)
        ensures
            t.renderables@.len() == 0,
    {
        SimpleRenderTasks { renderables: Vec::new() }
    }

    /// Queues one static mesh draw.
    pub fn queue_static_mesh(&mut self, shader_id: u64, mesh_id: u64, payload: P)
        ensures
            final(self).renderables@ == old(self).renderables@.push(
                Renderable::StaticMesh { shader_id, mesh_id, payload },
            ),
    {
        self.renderables.push(Renderable::StaticMesh { shader_id, mesh_id, payload });
    }

    /// Resolves the queue against the context: every task whose mesh and
    /// shader were uploaded becomes a draw call, in queue order; the rest
    /// are skipped.  The backend binds each call's handles and fetches the
    /// task's payload back by its queue position.
    pub fn render(&self, context: &Context) -> (calls: Vec<DrawCall>)
        ensures
            calls@ == resolve_spec(context.static_meshes@, context.shaders@, self.renderables@),
    {
        let ghost meshes = context.static_meshes@;
        let ghost shaders = context.shaders@;
        let mut calls: Vec<DrawCall> = Vec::new();
        let mut i: usize = 0;
        while i < self.renderables.len()
            invariant
                i <= self.renderables@.len(),
                calls@ == resolve_spec(meshes, shaders, self.renderables@.take(i as int)),
                meshes == context.static_meshes@,
                shaders == context.shaders@,
            decreases self.renderables@.len() - i,
        {
            proof {
                assert(self.renderables@.take((i + 1) as int).drop_last() =~= self.renderables@.take(
                    i as int,
                ));
                assert(self.renderables@.take((i + 1) as int).last() == self.renderables@[i as int]);
            }
            match &self.renderables[i] {
                Renderable::StaticMesh { shader_id, mesh_id, payload } => {
                    let mesh_info = match context.get_static_mesh(*mesh_id) {
                        Some(info) => *info,
                        None => {
                            i += 1;
                            continue ;
                        },
                    };
                    let shader_info = match context.get_shader(*shader_id) {
                        Some(info) => *info,
                        None => {
                            i += 1;
                            continue ;
                        },
                    };
                    calls.push(
                        DrawCall {
                            item_index: i,
                            vao: mesh_info.vao,
                            ebo: mesh_info.ebo,
                            draw_size: mesh_info.draw_size,
                            shader: shader_info.shader,
                        },
                    );
                },
            }
            i += 1;
        }
        proof {
            assert(self.renderables@.take(self.renderables@.len() as int) =~= self.renderables@);
        }
        calls
    }
}

/// One attribute channel of a vertex buffer: its name and how many scalars
/// each vertex contributes to it.
#[derive(Debug)]
pub struct BufferElement {
    pub name: String,
    pub size: u32,
}

/// The scalars of the first `n` channels of one vertex row.
pub open spec fn row_offset(elements: Seq<BufferElement>, n: int) -> int
    decreases n,
{
    if n <= 0 {
        0
    } else {
        row_offset(elements, n - 1) + elements[n - 1].size
    }
}

proof fn lemma_row_offset_monotone(elements: Seq<BufferElement>, n1: int, n2: int)
    requires
        0 <= n1 <= n2,
    ensures
        row_offset(elements, n1) <= row_offset(elements, n2),
    decreases n2 - n1,
{
    if n1 < n2 {
        lemma_row_offset_monotone(elements, n1, n2 - 1);
    }
}

/// One vertex attribute to point the backend at: its index in declaration
/// order, its scalar count, and its scalar offset inside a vertex row.
#[derive(Clone, Copy, PartialEq, Eq, Debug, Structural)]
pub struct VertexAttribute {
    pub index: u32,
    pub size: u32,
    pub offset: u32,
}

/// Lays the attribute channels of a vertex buffer out for the backend:
/// consecutive indices, each channel starting where the previous ended.
/// The scalar offsets here are what the backend multiplies by its scalar
/// width to bind the attribute pointers.
pub fn vertex_attributes(elements: &Vec<BufferElement>) -> (attrs: Vec<VertexAttribute>)
    requires
        elements@.len() <= u32::MAX as nat,
        row_offset(elements@, elements@.len() as int) <= u32::MAX as int,
    ensures
        attrs@.len() == elements@.len(),
        forall|i: int|
            0 <= i < attrs@.len() ==> #[trigger] attrs@[i] == (VertexAttribute {
                index: i as u32,
                size: elements@[i].size,
                offset: row_offset(elements@, i) as u32,
            }),
{
    let mut attrs: Vec<VertexAttribute> = Vec::new();
    let mut offset: u32 = 0;
    let mut i: usize = 0;
    while i < elements.len()
        invariant
            i <= elements@.len(),
            elements@.len() <= u32::MAX as nat,
            row_offset(elements@, elements@.len() as int) <= u32::MAX as int,
            offset == row_offset(elements@, i as int),
            attrs@.len() == i,
            forall|j: int|
                0 <= j < i ==> #[trigger] attrs@[j] == (VertexAttribute {
                    index: j as u32,
                    size: elements@[j].size,
                    offset: row_offset(elements@, j) as u32,
                }),
        decreases elements@.len() - i,
    {
        proof {
            lemma_row_offset_monotone(elements@, (i + 1) as int, elements@.len() as int);
        }
        attrs.push(VertexAttribute { index: i as u32, size: elements[i].size, offset });
        offset = offset + elements[i].size;
        i += 1;
    }
    attrs
}

} // verus!
