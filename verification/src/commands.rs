//! The draw-command stream of one frame.
//!
//! Recording a frame turns the mesh registry into a list of commands for
//! the caller to replay against its command buffer, in order.  The list
//! is specified exactly: one pipeline bind per run of consecutive meshes
//! that request the same pipeline name, one hardware-instanced draw per
//! instanced mesh, one draw per transform otherwise.

use vstd::prelude::*;
use crate::mesh::{spec_identity_mat4, Color4, Instancing, Mat4, MeshEntry, MeshSlot};
use crate::pipelines::{Pipeline, PipelineRegistry};

verus! {

/// Push constants of the fluid pipelines, as `f32` bit patterns.
#[derive(Clone, Copy, Debug, PartialEq, Eq)]
pub struct PushConstants {
    pub time: u32,
    pub camera_position_x: u32,
    pub camera_position_y: u32,
    pub camera_position_z: u32,
    pub resolution: [u32; 2],
    pub water_level: u32,
    pub grid_scale: u32,
}

/// The per-draw constants pushed before a draw call.
#[derive(Clone, Copy, Debug, PartialEq, Eq)]
pub enum PushData {
    /// Model/view/projection block plus the mesh's base color, for
    /// ordinary meshes.
    Mvp { model: Mat4, view: Mat4, proj: Mat4, base_color: Color4 },
    /// Skinned shaders take only the elapsed time; the caller fills in
    /// the value at replay.  Camera and joints travel through uniform
    /// buffers instead.
    Time,
    /// The fluid pipelines' constant block.
    Water(PushConstants),
}

/// Which descriptor set a bind refers to.
#[derive(Clone, Copy, Debug, PartialEq, Eq)]
pub enum DescriptorSource {
    /// The skinned set (joint + camera uniforms) of the mesh at this
    /// registry index.
    Skinned { mesh_index: usize },
    /// The texture set of the mesh at this registry index.
    MeshTexture { mesh_index: usize },
    /// The renderer-wide texture set kept by the legacy single-mesh path.
    GlobalTexture,
    /// The texture set of the fluid pipeline at this index of the
    /// textured-pipeline list.
    PipelineTexture { index: usize },
}

/// One command of a recorded frame.
#[derive(Clone, Copy, Debug, PartialEq, Eq)]
pub enum DrawCommand {
    BeginRenderPass { clear_color: Color4 },
    SetViewport { width: u32, height: u32 },
    SetScissor { width: u32, height: u32 },
    BindPipeline { pipeline: Pipeline },
    BindVertexBuffer { binding: u32, buffer: u64 },
    BindIndexBuffer { buffer: u64 },
    /// Rewrite the mesh's camera uniform buffer with the frame's view and
    /// projection before its descriptor set is bound.
    WriteCameraUniform { camera_buffer: u64, view: Mat4, proj: Mat4 },
    BindDescriptorSets { layout: u64, source: DescriptorSource },
    PushConstants { layout: u64, data: PushData },
    /// A non-indexed draw; only the fluid path's fullscreen sky uses it.
    Draw { vertex_count: u32, instance_count: u32 },
    /// Paint the frame's UI overlay (the caller's immediate-mode paint
    /// primitives and texture deltas), inside the render pass after all
    /// opaque geometry.
    DrawUiOverlay,
    DrawIndexed { index_count: u32, instance_count: u32 },
    EndRenderPass,
}

/// How the legacy single-mesh path issues its draw: plain vertices, an
/// indexed draw, or one indexed-instanced draw.
#[derive(Clone, Copy, Debug, PartialEq, Eq)]
pub enum DrawMode {
    Simple { vertex_count: u32 },
    Indexed { index_count: u32 },
    IndexedInstanced { index_count: u32, instance_count: u32 },
}

/// The pipeline name a mesh asks for: its override, else the default.
pub open spec fn spec_requested_name(m: MeshEntry, default_name: Seq<char>) -> Seq<char> {
    match m.pipeline_name {
        Some(n) => n@,
        None => default_name,
    }
}

/// The pipeline a requested name resolves to: the registry entry, or the
/// fallback pipeline when the name was never registered.
pub open spec fn spec_resolved_pipeline(
    reg: PipelineRegistry,
    fallback: Pipeline,
    name: Seq<char>,
) -> Pipeline {
    match reg.spec_get(name) {
        Some(p) => p,
        None => fallback,
    }
}

/// Descriptor-set commands of one mesh: the skinned set (preceded, on
/// the instanced path, by the camera-uniform rewrite), else the mesh's
/// texture set, else the renderer-wide texture set, else nothing.
pub open spec fn spec_descriptor_cmds(
    m: MeshEntry,
    mesh_index: usize,
    layout: u64,
    global_texture: bool,
    view: Mat4,
    proj: Mat4,
    with_camera_write: bool,
) -> Seq<DrawCommand> {
    match m.skinning {
        Some(sk) => match sk.camera_buffer {
            Some(cb) if with_camera_write => seq![
                DrawCommand::WriteCameraUniform { camera_buffer: cb, view, proj },
                DrawCommand::BindDescriptorSets {
                    layout,
                    source: DescriptorSource::Skinned { mesh_index },
                },
            ],
            _ => seq![
                DrawCommand::BindDescriptorSets {
                    layout,
                    source: DescriptorSource::Skinned { mesh_index },
                },
            ],
        },
        None => if m.has_texture {
            seq![
                DrawCommand::BindDescriptorSets {
                    layout,
                    source: DescriptorSource::MeshTexture { mesh_index },
                },
            ]
        } else if global_texture {
            seq![
                DrawCommand::BindDescriptorSets { layout, source: DescriptorSource::GlobalTexture },
            ]
        } else {
            Seq::empty()
        },
    }
}

/// The per-transform tail of a non-instanced mesh: one push-constant
/// block and one indexed draw per transform.
pub open spec fn spec_transform_cmds(
    ts: Seq<Mat4>,
    layout: u64,
    view: Mat4,
    proj: Mat4,
    base_color: Color4,
    index_count: u32,
) -> Seq<DrawCommand>
    decreases ts.len()
{
    if ts.len() == 0 {
        Seq::empty()
    } else {
        seq![
            DrawCommand::PushConstants {
                layout,
                data: PushData::Mvp { model: ts[0], view, proj, base_color },
            },
            DrawCommand::DrawIndexed { index_count, instance_count: 1 },
        ] + spec_transform_cmds(ts.drop_first(), layout, view, proj, base_color, index_count)
    }
}

/// Everything one drawn mesh emits after its (possible) pipeline bind.
pub open spec fn spec_mesh_cmds(
    m: MeshEntry,
    mesh_index: usize,
    layout: u64,
    global_texture: bool,
    view: Mat4,
    proj: Mat4,
) -> Seq<DrawCommand> {
    match m.instancing {
        Instancing::Instanced { buffer, positions, .. } => seq![
            DrawCommand::BindVertexBuffer { binding: 0, buffer: m.vertex_buffer },
            DrawCommand::BindVertexBuffer { binding: 1, buffer },
            DrawCommand::BindIndexBuffer { buffer: m.index_buffer },
        ] + spec_descriptor_cmds(m, mesh_index, layout, global_texture, view, proj, true) + seq![
            DrawCommand::PushConstants {
                layout,
                data: if m.skinning is Some {
                    PushData::Time
                } else {
                    PushData::Mvp {
                        model: spec_identity_mat4(),
                        view,
                        proj,
                        base_color: m.base_color,
                    }
                },
            },
            DrawCommand::DrawIndexed {
                index_count: m.index_count,
                instance_count: positions@.len() as u32,
            },
        ],
        Instancing::Individual(ts) => seq![
            DrawCommand::BindVertexBuffer { binding: 0, buffer: m.vertex_buffer },
            DrawCommand::BindIndexBuffer { buffer: m.index_buffer },
        ] + spec_descriptor_cmds(m, mesh_index, layout, global_texture, view, proj, false)
            + spec_transform_cmds(ts@, layout, view, proj, m.base_color, m.index_count),
    }
}

/// The whole mesh pass: walk the registry in order, skip slots that draw
/// nothing, bind a pipeline only when the requested name differs from
/// the one currently bound (`cur`), then emit the mesh's commands.
pub open spec fn spec_frame_cmds(
    slots: Seq<MeshSlot>,
    idx: int,
    reg: PipelineRegistry,
    fallback: Pipeline,
    default_name: Seq<char>,
    global_texture: bool,
    view: Mat4,
    proj: Mat4,
    cur: Option<Seq<char>>,
) -> Seq<DrawCommand>
    decreases slots.len() - idx when 0 <= idx <= slots.len()
{
    if idx >= slots.len() {
        Seq::empty()
    } else {
        match slots[idx] {
            MeshSlot::Empty => spec_frame_cmds(
                slots,
                idx + 1,
                reg,
                fallback,
                default_name,
                global_texture,
                view,
                proj,
                cur,
            ),
            MeshSlot::Live(m) => {
                if !slots[idx].spec_drawn() {
                    spec_frame_cmds(
                        slots,
                        idx + 1,
                        reg,
                        fallback,
                        default_name,
                        global_texture,
                        view,
                        proj,
                        cur,
                    )
                } else {
                    let name = spec_requested_name(m, default_name);
                    let pipe = spec_resolved_pipeline(reg, fallback, name);
                    let bind: Seq<DrawCommand> = if cur == Some(name) {
                        Seq::empty()
                    } else {
                        seq![DrawCommand::BindPipeline { pipeline: pipe }]
                    };
                    bind + spec_mesh_cmds(
                        m,
                        idx as usize,
                        pipe.layout,
                        global_texture,
                        view,
                        proj,
                    ) + spec_frame_cmds(
                        slots,
                        idx + 1,
                        reg,
                        fallback,
                        default_name,
                        global_texture,
                        view,
                        proj,
                        Some(name),
                    )
                }
            },
        }
    }
}

/// Number of pipeline-bind commands in a stream.
pub open spec fn spec_count_binds(cmds: Seq<DrawCommand>) -> nat
    decreases cmds.len()
{
    if cmds.len() == 0 {
        0
    } else {
        (if cmds[0] is BindPipeline {
            1nat
        } else {
            0nat
        }) + spec_count_binds(cmds.drop_first())
    }
}

/// Number of indexed-draw commands in a stream.
pub open spec fn spec_count_draws(cmds: Seq<DrawCommand>) -> nat
    decreases cmds.len()
{
    if cmds.len() == 0 {
        0
    } else {
        (if cmds[0] is DrawIndexed {
            1nat
        } else {
            0nat
        }) + spec_count_draws(cmds.drop_first())
    }
}

pub proof fn lemma_count_binds_add(a: Seq<DrawCommand>, b: Seq<DrawCommand>)
    ensures
        spec_count_binds(a + b) == spec_count_binds(a) + spec_count_binds(b),
    decreases a.len()
{
    if a.len() == 0 {
        assert(a + b =~= b);
    } else {
        assert((a + b).drop_first() =~= a.drop_first() + b);
        lemma_count_binds_add(a.drop_first(), b);
    }
}

pub proof fn lemma_count_draws_add(a: Seq<DrawCommand>, b: Seq<DrawCommand>)
    ensures
        spec_count_draws(a + b) == spec_count_draws(a) + spec_count_draws(b),
    decreases a.len()
{
    if a.len() == 0 {
        assert(a + b =~= b);
    } else {
        assert((a + b).drop_first() =~= a.drop_first() + b);
        lemma_count_draws_add(a.drop_first(), b);
    }
}

pub proof fn lemma_count_binds_none(s: Seq<DrawCommand>)
    requires
        forall|i: int| 0 <= i < s.len() ==> !((#[trigger] s[i]) is BindPipeline),
    ensures
        spec_count_binds(s) == 0,
    decreases s.len()
{
    if s.len() > 0 {
        lemma_count_binds_none(s.drop_first());
    }
}

pub proof fn lemma_count_draws_none(s: Seq<DrawCommand>)
    requires
        forall|i: int| 0 <= i < s.len() ==> !((#[trigger] s[i]) is DrawIndexed),
    ensures
        spec_count_draws(s) == 0,
    decreases s.len()
{
    if s.len() > 0 {
        lemma_count_draws_none(s.drop_first());
    }
}

/// A non-instanced mesh's transform tail holds no pipeline bind and
/// exactly one single-instance indexed draw per transform.
pub proof fn lemma_transform_cmds_counts(
    ts: Seq<Mat4>,
    layout: u64,
    view: Mat4,
    proj: Mat4,
    base_color: Color4,
    index_count: u32,
)
    ensures
        spec_count_binds(spec_transform_cmds(ts, layout, view, proj, base_color, index_count))
            == 0,
        spec_count_draws(spec_transform_cmds(ts, layout, view, proj, base_color, index_count))
            == ts.len(),
        forall|i: int|
            0 <= i < spec_transform_cmds(ts, layout, view, proj, base_color, index_count).len()
                && (#[trigger] spec_transform_cmds(
                ts,
                layout,
                view,
                proj,
                base_color,
                index_count,
            )[i]) is DrawIndexed ==> spec_transform_cmds(
                ts,
                layout,
                view,
                proj,
                base_color,
                index_count,
            )[i] == (DrawCommand::DrawIndexed { index_count, instance_count: 1 }),
    decreases ts.len()
{
    let cmds = spec_transform_cmds(ts, layout, view, proj, base_color, index_count);
    if ts.len() == 0 {
    } else {
        let head: Seq<DrawCommand> = seq![
            DrawCommand::PushConstants {
                layout,
                data: PushData::Mvp { model: ts[0], view, proj, base_color },
            },
            DrawCommand::DrawIndexed { index_count, instance_count: 1 },
        ];
        let tail = spec_transform_cmds(ts.drop_first(), layout, view, proj, base_color, index_count);
        lemma_transform_cmds_counts(ts.drop_first(), layout, view, proj, base_color, index_count);
        lemma_count_binds_add(head, tail);
        lemma_count_draws_add(head, tail);
        assert(spec_count_binds(head) == 0) by {
            lemma_count_binds_none(head);
        }
        assert(spec_count_draws(head) == 1) by {
            reveal_with_fuel(spec_count_draws, 4);
            assert(head.drop_first() =~= seq![
                DrawCommand::DrawIndexed { index_count, instance_count: 1 },
            ]);
            assert(head.drop_first().drop_first() =~= Seq::<DrawCommand>::empty());
        }
        assert forall|i: int| 0 <= i < cmds.len() && cmds[i] is DrawIndexed implies cmds[i] == (
        DrawCommand::DrawIndexed { index_count, instance_count: 1 }) by {
            if i >= 2 {
                assert(cmds[i] == tail[i - 2]);
            }
        }
    }
}

/// The commands of one drawn mesh hold no pipeline bind; pipeline binds
/// come only from run changes in the frame walk.
pub proof fn lemma_mesh_cmds_no_binds(
    m: MeshEntry,
    mesh_index: usize,
    layout: u64,
    global_texture: bool,
    view: Mat4,
    proj: Mat4,
)
    ensures
        spec_count_binds(spec_mesh_cmds(m, mesh_index, layout, global_texture, view, proj)) == 0,
{
    let cmds = spec_mesh_cmds(m, mesh_index, layout, global_texture, view, proj);
    let desc = spec_descriptor_cmds(
        m,
        mesh_index,
        layout,
        global_texture,
        view,
        proj,
        m.instancing is Instanced,
    );
    match m.instancing {
        Instancing::Instanced { buffer, positions, .. } => {
            let pre: Seq<DrawCommand> = seq![
                DrawCommand::BindVertexBuffer { binding: 0, buffer: m.vertex_buffer },
                DrawCommand::BindVertexBuffer { binding: 1, buffer },
                DrawCommand::BindIndexBuffer { buffer: m.index_buffer },
            ];
            let post: Seq<DrawCommand> = seq![
                DrawCommand::PushConstants {
                    layout,
                    data: if m.skinning is Some {
                        PushData::Time
                    } else {
                        PushData::Mvp {
                            model: spec_identity_mat4(),
                            view,
                            proj,
                            base_color: m.base_color,
                        }
                    },
                },
                DrawCommand::DrawIndexed {
                    index_count: m.index_count,
                    instance_count: positions@.len() as u32,
                },
            ];
            assert(cmds == pre + desc + post);
            lemma_count_binds_add(pre + desc, post);
            lemma_count_binds_add(pre, desc);
            lemma_count_binds_none(pre);
            lemma_count_binds_none(desc);
            lemma_count_binds_none(post);
        },
        Instancing::Individual(ts) => {
            let pre: Seq<DrawCommand> = seq![
                DrawCommand::BindVertexBuffer { binding: 0, buffer: m.vertex_buffer },
                DrawCommand::BindIndexBuffer { buffer: m.index_buffer },
            ];
            let tail = spec_transform_cmds(ts@, layout, view, proj, m.base_color, m.index_count);
            assert(cmds == pre + desc + tail);
            lemma_count_binds_add(pre + desc, tail);
            lemma_count_binds_add(pre, desc);
            lemma_count_binds_none(pre);
            lemma_count_binds_none(desc);
            lemma_transform_cmds_counts(ts@, layout, view, proj, m.base_color, m.index_count);
        },
    }
}

/// A drawn hardware-instanced mesh emits exactly one indexed draw, and
/// that draw covers every instance in one call.
pub proof fn lemma_instanced_single_draw(
    m: MeshEntry,
    mesh_index: usize,
    layout: u64,
    global_texture: bool,
    view: Mat4,
    proj: Mat4,
)
    requires
        m.instancing is Instanced,
    ensures
        ({
            let cmds = spec_mesh_cmds(m, mesh_index, layout, global_texture, view, proj);
            &&& spec_count_draws(cmds) == 1
            &&& cmds.last() == (DrawCommand::DrawIndexed {
                index_count: m.index_count,
                instance_count: (match m.instancing {
                    Instancing::Instanced { positions, .. } => positions@.len() as u32,
                    Instancing::Individual(_) => 0,
                }),
            })
        }),
{
    let cmds = spec_mesh_cmds(m, mesh_index, layout, global_texture, view, proj);
    let desc = spec_descriptor_cmds(m, mesh_index, layout, global_texture, view, proj, true);
    match m.instancing {
        Instancing::Instanced { buffer, positions, .. } => {
            let pre: Seq<DrawCommand> = seq![
                DrawCommand::BindVertexBuffer { binding: 0, buffer: m.vertex_buffer },
                DrawCommand::BindVertexBuffer { binding: 1, buffer },
                DrawCommand::BindIndexBuffer { buffer: m.index_buffer },
            ];
            let post: Seq<DrawCommand> = seq![
                DrawCommand::PushConstants {
                    layout,
                    data: if m.skinning is Some {
                        PushData::Time
                    } else {
                        PushData::Mvp {
                            model: spec_identity_mat4(),
                            view,
                            proj,
                            base_color: m.base_color,
                        }
                    },
                },
                DrawCommand::DrawIndexed {
                    index_count: m.index_count,
                    instance_count: positions@.len() as u32,
                },
            ];
            assert(cmds == pre + desc + post);
            lemma_count_draws_add(pre + desc, post);
            lemma_count_draws_add(pre, desc);
            lemma_count_draws_none(pre);
            lemma_count_draws_none(desc);
            assert(spec_count_draws(post) == 1) by {
                reveal_with_fuel(spec_count_draws, 4);
                assert(post.drop_first() =~= seq![
                    DrawCommand::DrawIndexed {
                        index_count: m.index_count,
                        instance_count: positions@.len() as u32,
                    },
                ]);
                assert(post.drop_first().drop_first() =~= Seq::<DrawCommand>::empty());
            }
            assert(cmds.last() == post[1]);
        },
        Instancing::Individual(_) => {},
    }
}

/// How many draw calls one mesh costs: a single hardware-instanced call
/// however many instances it has, else one call per transform.
pub open spec fn spec_mesh_draw_count(m: MeshEntry) -> nat {
    match m.instancing {
        Instancing::Instanced { .. } => 1,
        Instancing::Individual(ts) => ts@.len(),
    }
}

/// The commands of one drawn mesh hold exactly its own draw calls.
pub proof fn lemma_mesh_cmds_draws(
    m: MeshEntry,
    mesh_index: usize,
    layout: u64,
    global_texture: bool,
    view: Mat4,
    proj: Mat4,
)
    ensures
        spec_count_draws(spec_mesh_cmds(m, mesh_index, layout, global_texture, view, proj))
            == spec_mesh_draw_count(m),
{
    let cmds = spec_mesh_cmds(m, mesh_index, layout, global_texture, view, proj);
    let desc = spec_descriptor_cmds(
        m,
        mesh_index,
        layout,
        global_texture,
        view,
        proj,
        m.instancing is Instanced,
    );
    match m.instancing {
        Instancing::Instanced { .. } => {
            lemma_instanced_single_draw(m, mesh_index, layout, global_texture, view, proj);
        },
        Instancing::Individual(ts) => {
            let pre: Seq<DrawCommand> = seq![
                DrawCommand::BindVertexBuffer { binding: 0, buffer: m.vertex_buffer },
                DrawCommand::BindIndexBuffer { buffer: m.index_buffer },
            ];
            let tail = spec_transform_cmds(ts@, layout, view, proj, m.base_color, m.index_count);
            assert(cmds == pre + desc + tail);
            lemma_count_draws_add(pre + desc, tail);
            lemma_count_draws_add(pre, desc);
            lemma_count_draws_none(pre);
            lemma_count_draws_none(desc);
            lemma_transform_cmds_counts(ts@, layout, view, proj, m.base_color, m.index_count);
        },
    }
}

/// Total draw calls the drawn meshes from `idx` on are owed.
pub open spec fn spec_expected_draws(slots: Seq<MeshSlot>, idx: int) -> nat
    decreases slots.len() - idx when 0 <= idx <= slots.len()
{
    if idx >= slots.len() {
        0
    } else {
        (match slots[idx] {
            MeshSlot::Live(m) => if slots[idx].spec_drawn() {
                spec_mesh_draw_count(m)
            } else {
                0
            },
            MeshSlot::Empty => 0,
        }) + spec_expected_draws(slots, idx + 1)
    }
}

/// Draw-call budget of a frame: the recorded mesh pass issues exactly
/// one indexed-instanced call per drawn hardware-instanced mesh and one
/// indexed call per transform of every other drawn mesh — an instanced
/// mesh with a thousand instances costs one call, not a thousand.
pub proof fn lemma_frame_draw_count(
    slots: Seq<MeshSlot>,
    idx: int,
    reg: PipelineRegistry,
    fallback: Pipeline,
    default_name: Seq<char>,
    global_texture: bool,
    view: Mat4,
    proj: Mat4,
    cur: Option<Seq<char>>,
)
    requires
        0 <= idx <= slots.len(),
    ensures
        spec_count_draws(
            spec_frame_cmds(
                slots,
                idx,
                reg,
                fallback,
                default_name,
                global_texture,
                view,
                proj,
                cur,
            ),
        ) == spec_expected_draws(slots, idx),
    decreases slots.len() - idx
{
    if idx >= slots.len() {
    } else {
        match slots[idx] {
            MeshSlot::Empty => {
                lemma_frame_draw_count(
                    slots,
                    idx + 1,
                    reg,
                    fallback,
                    default_name,
                    global_texture,
                    view,
                    proj,
                    cur,
                );
            },
            MeshSlot::Live(m) => {
                if !slots[idx].spec_drawn() {
                    lemma_frame_draw_count(
                        slots,
                        idx + 1,
                        reg,
                        fallback,
                        default_name,
                        global_texture,
                        view,
                        proj,
                        cur,
                    );
                } else {
                    let name = spec_requested_name(m, default_name);
                    let pipe = spec_resolved_pipeline(reg, fallback, name);
                    let bind: Seq<DrawCommand> = if cur == Some(name) {
                        Seq::empty()
                    } else {
                        seq![DrawCommand::BindPipeline { pipeline: pipe }]
                    };
                    let body = spec_mesh_cmds(
                        m,
                        idx as usize,
                        pipe.layout,
                        global_texture,
                        view,
                        proj,
                    );
                    let rest = spec_frame_cmds(
                        slots,
                        idx + 1,
                        reg,
                        fallback,
                        default_name,
                        global_texture,
                        view,
                        proj,
                        Some(name),
                    );
                    lemma_frame_draw_count(
                        slots,
                        idx + 1,
                        reg,
                        fallback,
                        default_name,
                        global_texture,
                        view,
                        proj,
                        Some(name),
                    );
                    lemma_count_draws_add(bind + body, rest);
                    lemma_count_draws_add(bind, body);
                    lemma_count_draws_none(bind);
                    lemma_mesh_cmds_draws(m, idx as usize, pipe.layout, global_texture, view, proj);
                }
            },
        }
    }
}

/// The requested pipeline names of the drawn meshes from `idx` on, in
/// draw order.
pub open spec fn spec_drawn_names(
    slots: Seq<MeshSlot>,
    idx: int,
    default_name: Seq<char>,
) -> Seq<Seq<char>>
    decreases slots.len() - idx when 0 <= idx <= slots.len()
{
    if idx >= slots.len() {
        Seq::empty()
    } else {
        match slots[idx] {
            MeshSlot::Empty => spec_drawn_names(slots, idx + 1, default_name),
            MeshSlot::Live(m) => if slots[idx].spec_drawn() {
                seq![spec_requested_name(m, default_name)] + spec_drawn_names(
                    slots,
                    idx + 1,
                    default_name,
                )
            } else {
                spec_drawn_names(slots, idx + 1, default_name)
            },
        }
    }
}

/// Number of maximal runs of equal consecutive names, counting a first
/// run only when it differs from the name already bound (`cur`).
pub open spec fn spec_runs(names: Seq<Seq<char>>, cur: Option<Seq<char>>) -> nat
    decreases names.len()
{
    if names.len() == 0 {
        0
    } else {
        (if cur == Some(names[0]) {
            0nat
        } else {
            1nat
        }) + spec_runs(names.drop_first(), Some(names[0]))
    }
}

/// Pipeline-switch minimization: the number of pipeline-bind commands in
/// a recorded frame equals the number of maximal runs of identical
/// consecutive requested pipeline names over the drawn meshes — never
/// the mesh count.
pub proof fn lemma_pipeline_bind_minimization(
    slots: Seq<MeshSlot>,
    idx: int,
    reg: PipelineRegistry,
    fallback: Pipeline,
    default_name: Seq<char>,
    global_texture: bool,
    view: Mat4,
    proj: Mat4,
    cur: Option<Seq<char>>,
)
    requires
        0 <= idx <= slots.len(),
    ensures
        spec_count_binds(
            spec_frame_cmds(
                slots,
                idx,
                reg,
                fallback,
                default_name,
                global_texture,
                view,
                proj,
                cur,
            ),
        ) == spec_runs(spec_drawn_names(slots, idx, default_name), cur),
    decreases slots.len() - idx
{
    if idx >= slots.len() {
    } else {
        match slots[idx] {
            MeshSlot::Empty => {
                lemma_pipeline_bind_minimization(
                    slots,
                    idx + 1,
                    reg,
                    fallback,
                    default_name,
                    global_texture,
                    view,
                    proj,
                    cur,
                );
            },
            MeshSlot::Live(m) => {
                if !slots[idx].spec_drawn() {
                    lemma_pipeline_bind_minimization(
                        slots,
                        idx + 1,
                        reg,
                        fallback,
                        default_name,
                        global_texture,
                        view,
                        proj,
                        cur,
                    );
                } else {
                    let name = spec_requested_name(m, default_name);
                    let pipe = spec_resolved_pipeline(reg, fallback, name);
                    let bind: Seq<DrawCommand> = if cur == Some(name) {
                        Seq::empty()
                    } else {
                        seq![DrawCommand::BindPipeline { pipeline: pipe }]
                    };
                    let body = spec_mesh_cmds(
                        m,
                        idx as usize,
                        pipe.layout,
                        global_texture,
                        view,
                        proj,
                    );
                    let rest = spec_frame_cmds(
                        slots,
                        idx + 1,
                        reg,
                        fallback,
                        default_name,
                        global_texture,
                        view,
                        proj,
                        Some(name),
                    );
                    lemma_pipeline_bind_minimization(
                        slots,
                        idx + 1,
                        reg,
                        fallback,
                        default_name,
                        global_texture,
                        view,
                        proj,
                        Some(name),
                    );
                    lemma_count_binds_add(bind + body, rest);
                    lemma_count_binds_add(bind, body);
                    lemma_mesh_cmds_no_binds(m, idx as usize, pipe.layout, global_texture, view, proj);
                    if cur == Some(name) {
                        lemma_count_binds_none(bind);
                    } else {
                        assert(spec_count_binds(bind) == 1) by {
                            reveal_with_fuel(spec_count_binds, 3);
                            assert(bind.drop_first() =~= Seq::<DrawCommand>::empty());
                        }
                    }
                    let names = spec_drawn_names(slots, idx, default_name);
                    assert(names == seq![name] + spec_drawn_names(slots, idx + 1, default_name));
                    assert(names[0] == name);
                    assert(names.drop_first() =~= spec_drawn_names(slots, idx + 1, default_name));
                }
            },
        }
    }
}

} // verus!
