use terrain_mesh::MeshLayout;

#[test]
fn single_quad_indices() {
    let layout = MeshLayout::new(1).unwrap();
    assert_eq!(layout.index_section(), vec![0, 1, 2, 2, 1, 3]);
}

#[test]
fn two_quads_per_axis_give_eight_triangles() {
    let layout = MeshLayout::new(2).unwrap();
    let indices = layout.index_section();
    assert_eq!(indices.len(), 24);
    assert_eq!(indices.len() / 3, 8);
    assert_eq!(
        indices,
        vec![0, 1, 3, 3, 1, 4, 1, 2, 4, 4, 2, 5, 3, 4, 6, 6, 4, 7, 4, 5, 7, 7, 5, 8]
    );
}

#[test]
fn two_quads_per_axis_use_each_vertex_as_often_as_it_has_triangles() {
    let layout = MeshLayout::new(2).unwrap();
    let mut indices = layout.index_section();
    indices.sort();
    assert_eq!(
        indices,
        vec![0, 1, 1, 1, 2, 2, 3, 3, 3, 4, 4, 4, 4, 4, 4, 5, 5, 5, 6, 6, 7, 7, 7, 8]
    );
}

#[test]
fn triangles_of_a_quad_share_the_diagonal() {
    for resolution in [1u32, 2, 3, 8] {
        let layout = MeshLayout::new(resolution).unwrap();
        let indices = layout.index_section();
        for quad in indices.chunks(6) {
            let (lower_left, upper_right) = (quad[2], quad[1]);
            assert_eq!(quad[3], lower_left);
            assert_eq!(quad[4], upper_right);
            assert_eq!(upper_right, quad[0] + 1);
            assert_eq!(lower_left, quad[0] + resolution + 1);
            assert_eq!(quad[5], lower_left + 1);
        }
    }
}

#[test]
fn every_group_is_one_cell_and_no_cell_comes_twice() {
    for resolution in [1u32, 2, 3, 5, 12] {
        let layout = MeshLayout::new(resolution).unwrap();
        let row = resolution + 1;
        let indices = layout.index_section();
        let mut covered = vec![false; (row * row) as usize];
        for quad in indices.chunks(6) {
            let base = quad[0];
            assert!(base / row < resolution && base % row < resolution);
            assert_eq!(quad, &[base, base + 1, base + row, base + row, base + 1, base + row + 1]);
            assert!(!covered[base as usize]);
            covered[base as usize] = true;
        }
        assert_eq!(covered.iter().filter(|&&hit| hit).count() as u32, resolution * resolution);
    }
}

#[test]
fn corners_of_a_quad_are_the_vertices_around_it() {
    let layout = MeshLayout::new(4).unwrap();
    for x in 0..4u32 {
        for z in 0..4u32 {
            let corners = layout.quad_triangles(x, z).unwrap();
            let upper_left = layout.vertex_at(x, z).unwrap().index;
            let upper_right = layout.vertex_at(x, z + 1).unwrap().index;
            let lower_left = layout.vertex_at(x + 1, z).unwrap().index;
            let lower_right = layout.vertex_at(x + 1, z + 1).unwrap().index;
            assert_eq!(
                corners,
                [upper_left, upper_right, lower_left, lower_left, upper_right, lower_right]
            );
        }
    }
}

#[test]
fn every_vertex_is_a_corner() {
    for resolution in [1u32, 2, 3, 10, 33] {
        let layout = MeshLayout::new(resolution).unwrap();
        let mut used = vec![false; layout.vertex_count() as usize];
        for index in layout.index_section() {
            used[index as usize] = true;
        }
        assert!(used.iter().all(|&hit| hit));
    }
}

#[test]
fn every_index_is_a_vertex() {
    for resolution in [1u32, 2, 3, 10, 33] {
        let layout = MeshLayout::new(resolution).unwrap();
        let indices = layout.index_section();
        assert_eq!(indices.len() as u32, layout.index_count());
        assert!(indices.iter().all(|&index| index < layout.vertex_count()));
    }
}

#[test]
fn quad_triangles_match_the_section() {
    let layout = MeshLayout::new(3).unwrap();
    let indices = layout.index_section();
    for x in 0..3u32 {
        for z in 0..3u32 {
            let quad = (z + x * 3) as usize;
            let corners = layout.quad_triangles(x, z).unwrap();
            assert_eq!(&indices[6 * quad..6 * quad + 6], &corners[..]);
        }
    }
    assert_eq!(layout.quad_triangles(0, 1), Some([1, 2, 5, 5, 2, 6]));
    assert_eq!(layout.quad_triangles(2, 1), Some([9, 10, 13, 13, 10, 14]));
    assert_eq!(layout.quad_triangles(2, 2), Some([10, 11, 14, 14, 11, 15]));
}

#[test]
fn quad_outside_the_grid_is_none() {
    let layout = MeshLayout::new(2).unwrap();
    assert_eq!(layout.quad_triangles(2, 0), None);
    assert_eq!(layout.quad_triangles(0, 2), None);
    assert_eq!(layout.quad_triangles(u32::MAX, 0), None);
    assert!(layout.quad_triangles(1, 1).is_some());
}
