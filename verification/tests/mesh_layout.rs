use flo_engine::mesh::{
    SkinnedVertex, TexturedVertex, Vertex, FORMAT_R32G32B32A32_SFLOAT, FORMAT_R32G32B32A32_UINT,
    FORMAT_R32G32B32_SFLOAT, FORMAT_R32G32_SFLOAT, FORMAT_R32_UINT,
};

#[test]
fn vertex_layout_matches_its_gpu_struct() {
    let binding = Vertex::get_binding_description();
    assert_eq!(binding.binding, 0);
    assert_eq!(binding.stride, 48);
    let attrs = Vertex::get_attribute_descriptions();
    assert_eq!(attrs.len(), 4);
    assert_eq!(
        attrs.iter().map(|a| a.offset).collect::<Vec<_>>(),
        vec![0, 12, 24, 32]
    );
    assert_eq!(attrs[2].format, FORMAT_R32G32_SFLOAT);
    assert_eq!(attrs[3].format, FORMAT_R32G32B32A32_SFLOAT);
}

#[test]
fn skinned_vertex_layout_adds_joints_and_weights() {
    let binding = SkinnedVertex::get_binding_description();
    assert_eq!(binding.stride, 80);
    let attrs = SkinnedVertex::get_attribute_descriptions();
    assert_eq!(attrs.len(), 6);
    assert_eq!(attrs[4].format, FORMAT_R32G32B32A32_UINT);
    assert_eq!(attrs[4].offset, 48);
    assert_eq!(attrs[5].format, FORMAT_R32G32B32A32_SFLOAT);
    assert_eq!(attrs[5].offset, 64);
}

#[test]
fn textured_vertex_layout_ends_with_the_layer_index() {
    let binding = TexturedVertex::get_binding_description();
    assert_eq!(binding.stride, 36);
    let attrs = TexturedVertex::get_attribute_descriptions();
    assert_eq!(attrs.len(), 4);
    assert_eq!(attrs[0].format, FORMAT_R32G32B32_SFLOAT);
    assert_eq!(attrs[3].format, FORMAT_R32_UINT);
    assert_eq!(attrs[3].offset, 32);
}
