use ale_core::render::{
    shader_build_outcome, vertex_attributes, BufferElement, Context, CreateBufferError,
    CreateShaderError, CreateTextureError, DrawCall, ShaderDrawInfo, ShaderError,
    SimpleRenderTasks, StaticMeshDrawInfo, StaticMeshError, TextureDrawInfo, TextureError,
    VertexAttribute,
};

fn mesh_info(vao: u32) -> StaticMeshDrawInfo {
    StaticMeshDrawInfo { vao, vbo: vao + 100, ebo: Some(vao + 200), draw_size: 36 }
}

#[test]
fn context_stores_and_finds_handles() {
    let mut ctx = Context::new();
    assert!(ctx.get_static_mesh(1).is_none());
    ctx.static_mesh(1, mesh_info(10));
    ctx.shader(2, ShaderDrawInfo { shader: 77 });
    ctx.texture(3, TextureDrawInfo { texture: 88 });
    assert_eq!(ctx.get_static_mesh(1), Some(&mesh_info(10)));
    assert_eq!(ctx.get_shader(2), Some(&ShaderDrawInfo { shader: 77 }));
    assert_eq!(ctx.get_texture(3), Some(&TextureDrawInfo { texture: 88 }));
    assert!(ctx.get_shader(1).is_none());
    // The last upload under an identifier wins.
    ctx.static_mesh(1, mesh_info(20));
    assert_eq!(ctx.get_static_mesh(1), Some(&mesh_info(20)));
}

#[test]
fn render_resolves_in_queue_order_and_skips_missing() {
    let mut ctx = Context::new();
    ctx.static_mesh(1, mesh_info(10));
    ctx.static_mesh(2, mesh_info(20));
    ctx.shader(5, ShaderDrawInfo { shader: 50 });
    let mut tasks: SimpleRenderTasks<&str> = SimpleRenderTasks::new();
    tasks.queue_static_mesh(5, 1, "first");
    tasks.queue_static_mesh(9, 2, "missing shader");
    tasks.queue_static_mesh(5, 3, "missing mesh");
    tasks.queue_static_mesh(5, 2, "fourth");
    let calls = tasks.render(&ctx);
    assert_eq!(
        calls,
        vec![
            DrawCall { item_index: 0, vao: 10, ebo: Some(210), draw_size: 36, shader: 50 },
            DrawCall { item_index: 3, vao: 20, ebo: Some(220), draw_size: 36, shader: 50 },
        ]
    );
}

#[test]
fn shader_build_outcome_reports_first_failing_stage() {
    assert_eq!(
        shader_build_outcome(
            false,
            String::from("v-log"),
            false,
            String::from("f-log"),
            false,
            String::from("l-log"),
        ),
        Err(CreateShaderError::VertexShaderError(String::from("v-log")))
    );
    assert_eq!(
        shader_build_outcome(
            true,
            String::new(),
            false,
            String::from("f-log"),
            true,
            String::new(),
        ),
        Err(CreateShaderError::FragmentShaderError(String::from("f-log")))
    );
    assert_eq!(
        shader_build_outcome(
            true,
            String::new(),
            true,
            String::new(),
            false,
            String::from("l-log"),
        ),
        Err(CreateShaderError::LinkingShaderError(String::from("l-log")))
    );
    assert_eq!(
        shader_build_outcome(true, String::new(), true, String::new(), true, String::new()),
        Ok(())
    );
}

#[test]
fn error_wrappers_carry_their_cause() {
    assert_eq!(
        StaticMeshError::from(CreateBufferError),
        StaticMeshError::CreateBufferError(CreateBufferError)
    );
    assert_eq!(
        ShaderError::from(CreateShaderError::LinkingShaderError(String::from("log"))),
        ShaderError::CompilationError(CreateShaderError::LinkingShaderError(String::from("log")))
    );
    assert_eq!(
        TextureError::from(CreateTextureError),
        TextureError::CreateTextureError(CreateTextureError)
    );
}

#[test]
fn vertex_attributes_lay_channels_end_to_end() {
    let elements = vec![
        BufferElement { name: String::from("position"), size: 3 },
        BufferElement { name: String::from("normal"), size: 3 },
        BufferElement { name: String::from("uv"), size: 2 },
    ];
    let attrs = vertex_attributes(&elements);
    assert_eq!(
        attrs,
        vec![
            VertexAttribute { index: 0, size: 3, offset: 0 },
            VertexAttribute { index: 1, size: 3, offset: 3 },
            VertexAttribute { index: 2, size: 2, offset: 6 },
        ]
    );
    let none: Vec<BufferElement> = vec![];
    assert!(vertex_attributes(&none).is_empty());
}
