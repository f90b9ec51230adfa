use terrain_mesh::{GridPoint, GridVertex, MeshLayout};

#[test]
fn single_quad_vertices_are_centred() {
    let layout = MeshLayout::new(1).unwrap();
    let centers: Vec<(i64, i64)> = (0..4)
        .map(|index| layout.vertex(index).unwrap())
        .map(|vertex| (vertex.center.x, vertex.center.z))
        .collect();
    assert_eq!(centers, vec![(-1, -1), (-1, 1), (1, -1), (1, 1)]);
}

#[test]
fn single_quad_positions_scale_with_the_step() {
    let layout = MeshLayout::new(1).unwrap();
    let step_size = 2.0f32 / 1.0f32;
    let positions: Vec<(f32, f32)> = (0..4)
        .map(|index| layout.vertex(index).unwrap())
        .map(|vertex| (vertex.center.x as f32 * step_size, vertex.center.z as f32 * step_size))
        .collect();
    assert_eq!(positions, vec![(-2.0, -2.0), (-2.0, 2.0), (2.0, -2.0), (2.0, 2.0)]);
}

#[test]
fn vertex_holds_every_derived_integer() {
    let layout = MeshLayout::new(2).unwrap();
    let vertex = layout.vertex_at(1, 2).unwrap();
    assert_eq!(
        vertex,
        GridVertex {
            x: 1,
            z: 2,
            index: 5,
            center: GridPoint { x: 1, z: 3 },
            left: GridPoint { x: 0, z: 2 },
            right: GridPoint { x: 2, z: 2 },
            up: GridPoint { x: 1, z: -1 },
            down: GridPoint { x: 1, z: 5 },
        }
    );
}

#[test]
fn first_vertex_samples_before_the_grid() {
    let layout = MeshLayout::new(3).unwrap();
    let vertex = layout.vertex_at(0, 0).unwrap();
    assert_eq!(vertex.index, 0);
    assert_eq!(vertex.center, GridPoint { x: -1, z: -1 });
    assert_eq!(vertex.left, GridPoint { x: -1, z: 0 });
    assert_eq!(vertex.right, GridPoint { x: 1, z: 0 });
    assert_eq!(vertex.up, GridPoint { x: 0, z: -4 });
    assert_eq!(vertex.down, GridPoint { x: 0, z: 4 });
}

#[test]
fn rank_is_row_plus_column_times_row_length() {
    let layout = MeshLayout::new(4).unwrap();
    for x in 0..=4u32 {
        for z in 0..=4u32 {
            let vertex = layout.vertex_at(x, z).unwrap();
            assert_eq!(vertex.index, z + x * 5);
            assert_eq!(layout.vertex(vertex.index), Some(vertex));
        }
    }
}

#[test]
fn ranks_cover_the_grid_once() {
    let layout = MeshLayout::new(5).unwrap();
    let mut seen = vec![false; layout.vertex_count() as usize];
    for x in 0..=5u32 {
        for z in 0..=5u32 {
            let index = layout.vertex_at(x, z).unwrap().index as usize;
            assert!(!seen[index]);
            seen[index] = true;
        }
    }
    assert!(seen.iter().all(|&hit| hit));
}

#[test]
fn vertex_outside_the_grid_is_none() {
    let layout = MeshLayout::new(2).unwrap();
    assert_eq!(layout.vertex_at(3, 0), None);
    assert_eq!(layout.vertex_at(0, 3), None);
    assert_eq!(layout.vertex_at(u32::MAX, u32::MAX), None);
    assert!(layout.vertex_at(2, 2).is_some());
    assert_eq!(layout.vertex(9), None);
    assert_eq!(layout.vertex(u32::MAX), None);
    assert!(layout.vertex(8).is_some());
}

#[test]
fn last_vertex_of_the_largest_grid() {
    let layout = MeshLayout::new(terrain_mesh::MAX_RESOLUTION).unwrap();
    let vertex = layout.vertex_at(17514, 17514).unwrap();
    assert_eq!(vertex.index, 306775224);
    assert_eq!(vertex.center, GridPoint { x: 35027, z: 35027 });
    assert_eq!(vertex.down, GridPoint { x: 17514, z: 35029 });
    assert_eq!(layout.vertex(306775224), Some(vertex));
}
