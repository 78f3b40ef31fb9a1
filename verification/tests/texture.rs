use flo_engine::texture::{
    pack_texture_layer, resize_texture_layer, scale_texture_layer, texture_array_extent,
    TextureData, MAX_TEXTURE_SIZE,
};

#[test]
fn placeholder_is_a_2x2_purple_checker() {
    let t = TextureData::placeholder();
    assert_eq!(t.width, 2);
    assert_eq!(t.height, 2);
    assert_eq!(
        t.pixels,
        vec![128, 0, 128, 255, 255, 0, 255, 255, 255, 0, 255, 255, 128, 0, 128, 255]
    );
}

#[test]
fn new_keeps_fields() {
    let t = TextureData::new(vec![1, 2, 3, 4], 1, 1);
    assert_eq!(t.pixels, vec![1, 2, 3, 4]);
    assert_eq!(t.width, 1);
    assert_eq!(t.height, 1);
}

#[test]
fn array_extent_is_the_layer_maximum() {
    let textures = vec![
        TextureData::new(Vec::new(), 64, 16),
        TextureData::new(Vec::new(), 32, 128),
        TextureData::new(Vec::new(), 8, 8),
    ];
    let (w, h, layers) = texture_array_extent(&textures);
    assert_eq!(w, 64);
    assert_eq!(h, 128);
    assert_eq!(layers, 3);
}

#[test]
fn array_extent_clamps_oversized_layers() {
    let textures = vec![TextureData::new(Vec::new(), 4096, 600)];
    let (w, h, layers) = texture_array_extent(&textures);
    assert_eq!(w, MAX_TEXTURE_SIZE);
    assert_eq!(h, MAX_TEXTURE_SIZE);
    assert_eq!(layers, 1);
}

#[test]
fn packed_layer_pads_columns_with_zeros_and_repeats_last_row() {
    // A 1x2 texture placed into a 2x3 layer: each row keeps its pixel
    // and gains one zero pixel of padding; the third row repeats row 1.
    let texture = TextureData::new(
        vec![
            1, 2, 3, 4, // row 0
            5, 6, 7, 8, // row 1
        ],
        1,
        2,
    );
    let packed = pack_texture_layer(&texture, 2, 3);
    assert_eq!(
        packed,
        vec![
            1, 2, 3, 4, 0, 0, 0, 0, // row 0 + padding
            5, 6, 7, 8, 0, 0, 0, 0, // row 1 + padding
            5, 6, 7, 8, 0, 0, 0, 0, // last row repeated
        ]
    );
}

#[test]
fn packed_layer_of_exact_size_is_the_texture_itself() {
    let texture = TextureData::new(vec![9; 2 * 2 * 4], 2, 2);
    let packed = pack_texture_layer(&texture, 2, 2);
    assert_eq!(packed, vec![9; 16]);
}

#[test]
fn oversized_layer_is_downsampled_nearest_neighbour() {
    // A 4x1 texture scaled to 2x1 keeps pixels 0 and 2: each
    // destination column samples the source at x * 4 / 2.
    let texture = TextureData::new(
        vec![
            10, 11, 12, 13, // pixel 0
            20, 21, 22, 23, // pixel 1
            30, 31, 32, 33, // pixel 2
            40, 41, 42, 43, // pixel 3
        ],
        4,
        1,
    );
    let scaled = scale_texture_layer(&texture, 2, 1);
    assert_eq!(scaled, vec![10, 11, 12, 13, 30, 31, 32, 33]);
}

#[test]
fn mixed_resize_shrinks_one_axis_and_stretches_the_other() {
    // A 4x1 source into a 2x2 layer does not fit (width 4 > 2), so the
    // scaling path handles both axes: columns sample 0 and 2, and both
    // destination rows sample the single source row.
    let texture = TextureData::new(
        vec![
            10, 11, 12, 13, 20, 21, 22, 23, 30, 31, 32, 33, 40, 41, 42, 43,
        ],
        4,
        1,
    );
    let resized = resize_texture_layer(&texture, 2, 2);
    assert_eq!(
        resized,
        vec![
            10, 11, 12, 13, 30, 31, 32, 33, // row 0
            10, 11, 12, 13, 30, 31, 32, 33, // row 1 samples the same source row
        ]
    );
}

#[test]
fn resize_of_a_fitting_layer_copies_and_pads() {
    let texture = TextureData::new(vec![1, 2, 3, 4], 1, 1);
    let resized = resize_texture_layer(&texture, 2, 1);
    assert_eq!(resized, pack_texture_layer(&texture, 2, 1));
    assert_eq!(resized, vec![1, 2, 3, 4, 0, 0, 0, 0]);
}

#[test]
fn array_extent_of_no_layers_is_one_by_one() {
    let (w, h, layers) = texture_array_extent(&Vec::new());
    assert_eq!(w, 1);
    assert_eq!(h, 1);
    assert_eq!(layers, 0);
}
