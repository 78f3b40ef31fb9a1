use flo_engine::commands::{DrawCommand, PushData};
use flo_engine::mesh::{Mat4, MeshData, SkinnedMeshData, Vertex, F32_ONE_BITS};
use flo_engine::pipelines::Pipeline;
use flo_engine::renderer::{EngineError, LegacyBuffers, MemReq, VulkanRenderer};

fn quad() -> MeshData {
    let vertices = vec![
        Vertex::new([0, 0, 0], [0, 0, F32_ONE_BITS], [0, 0]),
        Vertex::new([F32_ONE_BITS, 0, 0], [0, 0, F32_ONE_BITS], [F32_ONE_BITS, 0]),
        Vertex::new([F32_ONE_BITS, F32_ONE_BITS, 0], [0, 0, F32_ONE_BITS], [F32_ONE_BITS, F32_ONE_BITS]),
        Vertex::new([0, F32_ONE_BITS, 0], [0, 0, F32_ONE_BITS], [0, F32_ONE_BITS]),
    ];
    let indices = vec![0, 1, 2, 2, 3, 0];
    MeshData::new(vertices, indices)
}

fn req() -> MemReq {
    MemReq { size: 4096, alignment: 256, memory_type_index: 0 }
}

fn identity() -> Mat4 {
    let mut w = [0u32; 16];
    w[0] = F32_ONE_BITS;
    w[5] = F32_ONE_BITS;
    w[10] = F32_ONE_BITS;
    w[15] = F32_ONE_BITS;
    Mat4 { w }
}

fn new_renderer() -> VulkanRenderer {
    VulkanRenderer::new_multi_mesh(800, 600, Pipeline { pipeline: 10, layout: 11 })
}

fn draws(cmds: &[DrawCommand]) -> Vec<(u32, u32)> {
    cmds.iter()
        .filter_map(|c| match c {
            DrawCommand::DrawIndexed { index_count, instance_count } => {
                Some((*index_count, *instance_count))
            },
            _ => None,
        })
        .collect()
}

fn binds(cmds: &[DrawCommand]) -> Vec<Pipeline> {
    cmds.iter()
        .filter_map(|c| match c {
            DrawCommand::BindPipeline { pipeline } => Some(*pipeline),
            _ => None,
        })
        .collect()
}

#[test]
fn quad_with_one_transform_draws_once() {
    // A 2-triangle quad, no texture, one instance: one indexed draw with
    // index_count 6 and instance_count 1.
    let mut r = new_renderer();
    let i = r.add_mesh(&quad(), req(), req());
    assert_eq!(i, 0);
    assert_eq!(r.get_mesh_count(), 1);
    r.update_mesh_transforms(0, vec![identity()]);
    let plan = r.render_frame_with_camera_multi(identity(), identity());
    assert_eq!(draws(&plan.commands), vec![(6, 1)]);
}

#[test]
fn thousand_instances_are_one_draw() {
    // 1000 instance positions: one indexed-instanced draw covering all
    // of them, not 1000 individual draws.
    let mut r = new_renderer();
    let positions: Vec<[u32; 3]> = (0..1000).map(|k| [k as u32, 0, 0]).collect();
    let i = r.add_mesh_instanced(&quad(), positions, None, None, req(), req(), req());
    assert_eq!(i, 0);
    let plan = r.render_frame_with_camera_multi(identity(), identity());
    assert_eq!(draws(&plan.commands), vec![(6, 1000)]);
}

#[test]
fn pipeline_binds_equal_runs_not_mesh_count() {
    // Meshes requesting a, a, b, a in order: four meshes, three runs,
    // exactly three pipeline binds.
    let mut r = new_renderer();
    r.add_pipeline("a".to_string(), Pipeline { pipeline: 20, layout: 21 });
    r.add_pipeline("b".to_string(), Pipeline { pipeline: 30, layout: 31 });
    for name in ["a", "a", "b", "a"] {
        let i = r.add_mesh(&quad(), req(), req());
        r.update_mesh_transforms(i, vec![identity()]);
        r.set_mesh_pipeline(i, name.to_string());
    }
    let plan = r.render_frame_with_camera_multi(identity(), identity());
    let bound = binds(&plan.commands);
    assert_eq!(bound.len(), 3);
    assert_eq!(bound[0].pipeline, 20);
    assert_eq!(bound[1].pipeline, 30);
    assert_eq!(bound[2].pipeline, 20);
    assert_eq!(draws(&plan.commands).len(), 4);
}

#[test]
fn unnamed_meshes_share_the_default_run() {
    let mut r = new_renderer();
    for _ in 0..3 {
        let i = r.add_mesh(&quad(), req(), req());
        r.update_mesh_transforms(i, vec![identity()]);
    }
    let plan = r.render_frame_with_camera_multi(identity(), identity());
    let bound = binds(&plan.commands);
    assert_eq!(bound.len(), 1);
    assert_eq!(bound[0].pipeline, 10);
}

#[test]
fn unknown_pipeline_name_falls_back_to_default() {
    let mut r = new_renderer();
    let i = r.add_mesh(&quad(), req(), req());
    r.update_mesh_transforms(i, vec![identity()]);
    r.set_mesh_pipeline(i, "missing".to_string());
    let plan = r.render_frame_with_camera_multi(identity(), identity());
    let bound = binds(&plan.commands);
    assert_eq!(bound.len(), 1);
    assert_eq!(bound[0].pipeline, 10);
    assert_eq!(bound[0].layout, 11);
}

#[test]
fn removed_mesh_slot_is_inert_and_index_stable() {
    let mut r = new_renderer();
    let a = r.add_mesh(&quad(), req(), req());
    let tri = MeshData::new(quad().vertices, vec![0, 1, 2]);
    let b = r.add_mesh(&tri, req(), req());
    r.update_mesh_transforms(a, vec![identity()]);
    r.update_mesh_transforms(b, vec![identity()]);
    r.remove_mesh(a);
    // The count keeps both slots: indices are never compacted.
    assert_eq!(r.get_mesh_count(), 2);
    // The emptied slot draws nothing and ignores updates.
    r.update_mesh_transforms(a, vec![identity(), identity()]);
    let plan = r.render_frame_with_camera_multi(identity(), identity());
    assert_eq!(draws(&plan.commands), vec![(3, 1)]);
    // Index b still denotes the same logical mesh after replacing its
    // geometry in place.
    r.replace_mesh(b, &quad()).unwrap();
    let plan2 = r.render_frame_with_camera_multi(identity(), identity());
    assert_eq!(draws(&plan2.commands), vec![(6, 1)]);
}

#[test]
fn remove_mesh_returns_blocks_to_the_pool() {
    let mut r = new_renderer();
    let a = r.add_mesh(&quad(), req(), req());
    assert_eq!(r.memory_pool.pools.len(), 1);
    let free_before = r.memory_pool.pools[0].free_regions.len();
    r.remove_mesh(a);
    assert_eq!(r.memory_pool.pools[0].free_regions.len(), free_before + 2);
}

#[test]
fn replace_mesh_out_of_range_fails() {
    let mut r = new_renderer();
    assert_eq!(r.replace_mesh(0, &quad()), Err(EngineError::MeshIndexOutOfBounds));
}

#[test]
fn set_current_pipeline_unknown_name_fails() {
    let mut r = new_renderer();
    assert_eq!(
        r.set_current_pipeline(&"nope".to_string()),
        Err(EngineError::PipelineNotFound)
    );
    r.add_pipeline("wire".to_string(), Pipeline { pipeline: 40, layout: 41 });
    assert_eq!(r.set_current_pipeline(&"wire".to_string()), Ok(()));
    // The fallback for unknown names now follows the current pipeline.
    let i = r.add_mesh(&quad(), req(), req());
    r.update_mesh_transforms(i, vec![identity()]);
    r.set_mesh_pipeline(i, "missing".to_string());
    let plan = r.render_frame_with_camera_multi(identity(), identity());
    assert_eq!(binds(&plan.commands)[0].pipeline, 40);
}

#[test]
fn joint_update_round_trips_padded_to_128() {
    // Writing joint matrices and reading the buffer back yields the
    // matrices cut or zero-padded to 128 entries.
    let mut r = new_renderer();
    let skinned = SkinnedMeshData::new(Vec::new(), vec![0, 1, 2], Vec::new());
    let i = r.add_skinned_mesh_instanced(&skinned, vec![[0, 0, 0]], None);
    let mut m1 = identity();
    m1.w[3] = 0xDEAD;
    let mut m2 = identity();
    m2.w[7] = 0xBEEF;
    r.update_mesh_joint_matrices(i, &vec![m1, m2]);
    let buf = r.read_joint_matrices(i).unwrap();
    assert_eq!(buf.len(), 128);
    assert_eq!(buf[0], m1);
    assert_eq!(buf[1], m2);
    for k in 2..128 {
        assert_eq!(buf[k].w, [0u32; 16]);
    }
}

#[test]
fn joint_update_truncates_beyond_128() {
    let mut r = new_renderer();
    let skinned = SkinnedMeshData::new(Vec::new(), vec![0], Vec::new());
    let i = r.add_skinned_mesh_instanced(&skinned, vec![[0, 0, 0]], None);
    let mut tagged: Vec<Mat4> = Vec::new();
    for k in 0..130u32 {
        let mut m = identity();
        m.w[1] = k;
        tagged.push(m);
    }
    r.update_mesh_joint_matrices(i, &tagged);
    let buf = r.read_joint_matrices(i).unwrap();
    assert_eq!(buf.len(), 128);
    assert_eq!(buf[0].w[1], 0);
    assert_eq!(buf[127].w[1], 127);
}

#[test]
fn initial_joints_are_padded_to_128_at_creation() {
    let mut r = new_renderer();
    let mut j0 = identity();
    j0.w[2] = 0x1234;
    let skinned = SkinnedMeshData::new(Vec::new(), vec![0], vec![j0]);
    let i = r.add_skinned_mesh_instanced(&skinned, vec![[0, 0, 0]], None);
    let buf = r.read_joint_matrices(i).unwrap();
    assert_eq!(buf.len(), 128);
    assert_eq!(buf[0], j0);
    assert_eq!(buf[1].w, [0u32; 16]);
}

#[test]
fn shorter_joint_update_zeroes_the_older_tail() {
    // Every joint write clears the entries past its own list, so the
    // buffer always reads back as the latest matrices zero-padded to
    // 128 — a shorter second write leaves nothing of the first behind.
    let mut r = new_renderer();
    let skinned = SkinnedMeshData::new(Vec::new(), vec![0], Vec::new());
    let i = r.add_skinned_mesh_instanced(&skinned, vec![[0, 0, 0]], None);
    let mut a = identity();
    a.w[0] = 0xAAAA;
    let mut b = identity();
    b.w[0] = 0xBBBB;
    r.update_mesh_joint_matrices(i, &vec![a, a, a]);
    r.update_mesh_joint_matrices(i, &vec![b]);
    let buf = r.read_joint_matrices(i).unwrap();
    assert_eq!(buf[0], b);
    assert_eq!(buf[1].w, [0u32; 16]);
    assert_eq!(buf[2].w, [0u32; 16]);
    assert_eq!(buf[3].w, [0u32; 16]);
}

#[test]
fn a_mesh_can_be_turned_skinned_in_place() {
    let mut r = new_renderer();
    let i = r.add_mesh(&quad(), req(), req());
    r.update_mesh_transforms(i, vec![identity()]);
    assert!(r.read_joint_matrices(i).is_none());
    let mut j0 = identity();
    j0.w[6] = 0x77;
    r.update_skinned_mesh_joints(i, vec![j0]).unwrap();
    let buf = r.read_joint_matrices(i).unwrap();
    assert_eq!(buf.len(), 128);
    assert_eq!(buf[0], j0);
    assert_eq!(buf[1].w, [0u32; 16]);
    // A mesh made skinned after creation has no camera uniform buffer,
    // so its frame binds the skinned set without a camera rewrite.
    let plan = r.render_frame_with_camera_multi(identity(), identity());
    assert!(!plan.commands.iter().any(|c| matches!(c, DrawCommand::WriteCameraUniform { .. })));
    assert!(plan
        .commands
        .iter()
        .any(|c| matches!(c, DrawCommand::BindDescriptorSets { .. })));
    assert_eq!(
        r.update_skinned_mesh_joints(42, Vec::new()),
        Err(EngineError::MeshIndexOutOfBounds)
    );
}

#[test]
fn joint_update_on_unskinned_mesh_is_a_no_op() {
    let mut r = new_renderer();
    let i = r.add_mesh(&quad(), req(), req());
    r.update_mesh_joint_matrices(i, &vec![identity()]);
    assert!(r.read_joint_matrices(i).is_none());
    assert!(r.read_joint_matrices(99).is_none());
}

#[test]
fn skinned_mesh_pushes_time_and_writes_camera() {
    let mut r = new_renderer();
    let skinned = SkinnedMeshData::new(Vec::new(), vec![0, 1, 2], Vec::new());
    let i = r.add_skinned_mesh_instanced(&skinned, vec![[0, 0, 0], [1, 0, 0]], None);
    assert_eq!(i, 0);
    let plan = r.render_frame_with_camera_multi(identity(), identity());
    assert!(plan.commands.iter().any(|c| matches!(c, DrawCommand::WriteCameraUniform { .. })));
    assert!(plan.commands.iter().any(|c| matches!(
        c,
        DrawCommand::PushConstants { data: PushData::Time, .. }
    )));
    assert_eq!(draws(&plan.commands), vec![(3, 2)]);
}

#[test]
fn per_transform_path_pushes_each_model_matrix() {
    let mut r = new_renderer();
    let i = r.add_mesh(&quad(), req(), req());
    let mut t1 = identity();
    t1.w[12] = 0x40000000;
    let mut t2 = identity();
    t2.w[13] = 0x40400000;
    r.update_mesh_transforms(i, vec![t1, t2]);
    let plan = r.render_frame_with_camera_multi(identity(), identity());
    let models: Vec<Mat4> = plan
        .commands
        .iter()
        .filter_map(|c| match c {
            DrawCommand::PushConstants { data: PushData::Mvp { model, .. }, .. } => Some(*model),
            _ => None,
        })
        .collect();
    assert_eq!(models, vec![t1, t2]);
    assert_eq!(draws(&plan.commands), vec![(6, 1), (6, 1)]);
}

#[test]
fn update_mesh_instances_builds_translation_matrices() {
    let mut r = new_renderer();
    let i = r.add_mesh(&quad(), req(), req());
    r.update_mesh_instances(i, vec![[7, 8, 9]]);
    let plan = r.render_frame_with_camera_multi(identity(), identity());
    let models: Vec<Mat4> = plan
        .commands
        .iter()
        .filter_map(|c| match c {
            DrawCommand::PushConstants { data: PushData::Mvp { model, .. }, .. } => Some(*model),
            _ => None,
        })
        .collect();
    assert_eq!(models.len(), 1);
    assert_eq!(models[0].w[12], 7);
    assert_eq!(models[0].w[13], 8);
    assert_eq!(models[0].w[14], 9);
    assert_eq!(models[0].w[0], F32_ONE_BITS);
}

#[test]
fn meshes_without_instances_are_skipped() {
    let mut r = new_renderer();
    let _a = r.add_mesh(&quad(), req(), req());
    let b = r.add_mesh_instanced(&quad(), Vec::new(), None, None, req(), req(), req());
    assert_eq!(b, 1);
    let plan = r.render_frame_with_camera_multi(identity(), identity());
    assert!(draws(&plan.commands).is_empty());
    assert!(binds(&plan.commands).is_empty());
}

#[test]
fn update_instance_buffer_changes_the_single_draw_count() {
    let mut r = new_renderer();
    let i = r.add_mesh_instanced(
        &quad(),
        vec![[0, 0, 0], [1, 0, 0]],
        None,
        None,
        req(),
        req(),
        req(),
    );
    r.update_mesh_instance_buffer(i, vec![[0, 0, 0], [1, 0, 0], [2, 0, 0]]).unwrap();
    let plan = r.render_frame_with_camera_multi(identity(), identity());
    assert_eq!(draws(&plan.commands), vec![(6, 3)]);
    assert_eq!(
        r.update_mesh_instance_buffer(9, Vec::new()),
        Err(EngineError::MeshIndexOutOfBounds)
    );
}

#[test]
fn vertex_stream_upload_plan_grows_staging() {
    let mut r = new_renderer();
    let i = r.add_mesh(&quad(), req(), req());
    let verts = quad().vertices;
    let plan = r.update_mesh_vertices_full(i, &verts).unwrap();
    assert_eq!(plan.copy_size, 48 * 4);
    assert_eq!(plan.staging_generation, 1);
    assert_eq!(r.memory_pool.staging_size, 16 * 1024 * 1024);
    assert!(r.update_mesh_vertices_full(5, &verts).is_none());
}

#[test]
fn legacy_buffers_draw_only_while_registry_is_empty() {
    let mut r = new_renderer();
    r.set_legacy_buffers(
        LegacyBuffers { vertex_buffer: 77, index_buffer: Some(78), index_count: 36, instance_count: 0 },
        false,
    );
    let plan = r.render_frame_with_camera_multi(identity(), identity());
    // The legacy draw raises a zero instance count to one.
    assert_eq!(draws(&plan.commands), vec![(36, 1)]);
    let i = r.add_mesh(&quad(), req(), req());
    r.update_mesh_transforms(i, vec![identity()]);
    let plan2 = r.render_frame_with_camera_multi(identity(), identity());
    assert_eq!(draws(&plan2.commands), vec![(6, 1)]);
}

#[test]
fn ui_overlay_paints_after_opaque_geometry_inside_the_pass() {
    let mut r = new_renderer();
    let i = r.add_mesh(&quad(), req(), req());
    r.update_mesh_transforms(i, vec![identity()]);
    let plan = r.render_frame_with_egui(identity(), identity());
    let overlay_at = plan
        .commands
        .iter()
        .position(|c| matches!(c, DrawCommand::DrawUiOverlay))
        .unwrap();
    let last_draw_at = plan
        .commands
        .iter()
        .rposition(|c| matches!(c, DrawCommand::DrawIndexed { .. }))
        .unwrap();
    assert!(overlay_at > last_draw_at);
    assert!(matches!(
        plan.commands[plan.commands.len() - 1],
        DrawCommand::EndRenderPass
    ));
    assert_eq!(overlay_at, plan.commands.len() - 2);
    // Without the overlay request the frame carries no overlay command.
    let plain = r.render_frame_with_camera_multi(identity(), identity());
    assert!(!plain.commands.iter().any(|c| matches!(c, DrawCommand::DrawUiOverlay)));
}

#[test]
fn frames_advance_slots_and_keep_commands_bracketed() {
    let mut r = new_renderer();
    let plan0 = r.render_frame_with_camera_multi(identity(), identity());
    let plan1 = r.render_frame_with_camera_multi(identity(), identity());
    let plan2 = r.render_frame_with_camera_multi(identity(), identity());
    assert_eq!(plan0.slot, 0);
    assert_eq!(plan1.slot, 1);
    assert_eq!(plan2.slot, 0);
    assert!(matches!(plan0.commands[0], DrawCommand::BeginRenderPass { .. }));
    assert!(matches!(
        plan0.commands[plan0.commands.len() - 1],
        DrawCommand::EndRenderPass
    ));
    assert!(matches!(plan0.commands[1], DrawCommand::SetViewport { width: 800, height: 600 }));
}
