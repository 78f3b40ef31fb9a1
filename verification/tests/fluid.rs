use flo_engine::commands::{DrawCommand, PushConstants, PushData};
use flo_engine::mesh::{Mat4, MeshData, Vertex, F32_ONE_BITS};
use flo_engine::pipelines::Pipeline;
use flo_engine::renderer::{MemReq, VulkanRenderer};

fn quad() -> MeshData {
    let one = F32_ONE_BITS;
    let vertices = vec![
        Vertex::new([0, 0, 0], [0, 0, one], [0, 0]),
        Vertex::new([one, 0, 0], [0, 0, one], [one, 0]),
        Vertex::new([one, one, 0], [0, 0, one], [one, one]),
        Vertex::new([0, one, 0], [0, 0, one], [0, one]),
    ];
    MeshData::new(vertices, vec![0, 1, 2, 2, 3, 0])
}

fn req() -> MemReq {
    MemReq { size: 4096, alignment: 256, memory_type_index: 0 }
}

fn identity() -> Mat4 {
    let mut w = [0u32; 16];
    w[0] = F32_ONE_BITS;
    w[5] = F32_ONE_BITS;
    w[10] = F32_ONE_BITS;
    w[15] = F32_ONE_BITS;
    Mat4 { w }
}

fn constants() -> PushConstants {
    PushConstants {
        time: 0,
        camera_position_x: 0,
        camera_position_y: 0,
        camera_position_z: 0,
        resolution: [0, 0],
        water_level: 0,
        grid_scale: 0,
    }
}

#[test]
fn sky_prelude_draws_a_fullscreen_triangle() {
    let mut r = VulkanRenderer::new_multi_mesh(800, 600, Pipeline { pipeline: 1, layout: 2 });
    r.add_fluid_pipeline("sky".to_string(), Pipeline { pipeline: 50, layout: 51 }, false);
    let plan = r.render_frame_fluid(identity(), identity(), &constants());
    assert!(plan
        .commands
        .iter()
        .any(|c| matches!(c, DrawCommand::Draw { vertex_count: 3, instance_count: 1 })));
}

#[test]
fn unnamed_meshes_default_to_the_water_pipeline() {
    let mut r = VulkanRenderer::new_multi_mesh(800, 600, Pipeline { pipeline: 1, layout: 2 });
    r.add_fluid_pipeline("water".to_string(), Pipeline { pipeline: 60, layout: 61 }, false);
    let i = r.add_mesh(&quad(), req(), req());
    r.update_mesh_transforms(i, vec![identity(), identity()]);
    let plan = r.render_frame_fluid(identity(), identity(), &constants());
    let binds: Vec<u64> = plan
        .commands
        .iter()
        .filter_map(|c| match c {
            DrawCommand::BindPipeline { pipeline } => Some(pipeline.pipeline),
            _ => None,
        })
        .collect();
    assert_eq!(binds, vec![60]);
    // The fluid path draws the mesh once, with one instance per
    // transform, instead of one draw per transform.
    let draws: Vec<(u32, u32)> = plan
        .commands
        .iter()
        .filter_map(|c| match c {
            DrawCommand::DrawIndexed { index_count, instance_count } => {
                Some((*index_count, *instance_count))
            },
            _ => None,
        })
        .collect();
    assert_eq!(draws, vec![(6, 2)]);
    assert!(plan.commands.iter().any(|c| matches!(
        c,
        DrawCommand::PushConstants { data: PushData::Water(_), .. }
    )));
}

#[test]
fn meshes_with_missing_pipelines_are_skipped_not_defaulted() {
    let mut r = VulkanRenderer::new_multi_mesh(800, 600, Pipeline { pipeline: 1, layout: 2 });
    // No "water" pipeline registered: the unnamed mesh is skipped.
    let i = r.add_mesh(&quad(), req(), req());
    r.update_mesh_transforms(i, vec![identity()]);
    let plan = r.render_frame_fluid(identity(), identity(), &constants());
    assert!(!plan.commands.iter().any(|c| matches!(c, DrawCommand::DrawIndexed { .. })));
}

#[test]
fn textured_fluid_pipeline_binds_its_set() {
    let mut r = VulkanRenderer::new_multi_mesh(800, 600, Pipeline { pipeline: 1, layout: 2 });
    r.add_fluid_pipeline("wall".to_string(), Pipeline { pipeline: 70, layout: 71 }, true);
    let i = r.add_mesh(&quad(), req(), req());
    r.update_mesh_transforms(i, vec![identity()]);
    r.set_mesh_pipeline(i, "wall".to_string());
    let plan = r.render_frame_fluid(identity(), identity(), &constants());
    assert!(plan
        .commands
        .iter()
        .any(|c| matches!(c, DrawCommand::BindDescriptorSets { layout: 71, .. })));
}
