use terrain_mesh::{MeshError, MeshLayout, MAX_RESOLUTION};

#[test]
fn single_quad_layout() {
    let layout = MeshLayout::new(1).unwrap();
    assert_eq!(layout.resolution(), 1);
    assert_eq!(layout.vertices_per_row(), 2);
    assert_eq!(layout.vertex_count(), 4);
    assert_eq!(layout.index_count(), 6);
    assert_eq!(layout.vertex_offset(), 0);
    assert_eq!(layout.normal_offset(), 12);
    assert_eq!(layout.texcoord_offset(), 24);
    assert_eq!(layout.index_offset(), 32);
    assert_eq!(layout.len(), 38);
}

#[test]
fn two_quads_per_axis_layout() {
    let layout = MeshLayout::new(2).unwrap();
    assert_eq!(layout.vertices_per_row(), 3);
    assert_eq!(layout.vertex_count(), 9);
    assert_eq!(layout.index_count(), 24);
    assert_eq!(layout.normal_offset(), 27);
    assert_eq!(layout.texcoord_offset(), 54);
    assert_eq!(layout.index_offset(), 72);
    assert_eq!(layout.len(), 96);
}

#[test]
fn offsets_follow_the_counts() {
    for resolution in [1u32, 2, 3, 7, 64, 1000] {
        let layout = MeshLayout::new(resolution).unwrap();
        let vertices = (resolution + 1) * (resolution + 1);
        let indices = 6 * resolution * resolution;
        assert_eq!(layout.vertex_count(), vertices);
        assert_eq!(layout.index_count(), indices);
        assert_eq!(layout.normal_offset(), 3 * vertices);
        assert_eq!(layout.texcoord_offset(), 6 * vertices);
        assert_eq!(layout.index_offset(), 8 * vertices);
        assert_eq!(layout.len(), 8 * vertices + indices);
    }
}

#[test]
fn zero_resolution_is_rejected() {
    assert_eq!(MeshLayout::new(0), Err(MeshError::ZeroResolution));
}

#[test]
fn largest_resolution_fits() {
    assert_eq!(MAX_RESOLUTION, 17514);
    let layout = MeshLayout::new(MAX_RESOLUTION).unwrap();
    assert_eq!(layout.vertex_count(), 306775225);
    assert_eq!(layout.index_count(), 1840441176);
    assert_eq!(layout.len(), 4294642976);
}

#[test]
fn resolution_beyond_the_largest_is_rejected() {
    assert_eq!(MeshLayout::new(MAX_RESOLUTION + 1), Err(MeshError::TooLarge));
    assert_eq!(MeshLayout::new(65536), Err(MeshError::TooLarge));
    assert_eq!(MeshLayout::new(u32::MAX), Err(MeshError::TooLarge));
}

#[test]
fn first_resolution_that_overflows() {
    let resolution = u64::from(MAX_RESOLUTION) + 1;
    let len = 8 * (resolution + 1) * (resolution + 1) + 6 * resolution * resolution;
    assert!(len > u64::from(u32::MAX));
    let resolution = u64::from(MAX_RESOLUTION);
    let len = 8 * (resolution + 1) * (resolution + 1) + 6 * resolution * resolution;
    assert!(len <= u64::from(u32::MAX));
}
