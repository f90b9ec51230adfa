//! Assembly of the flat mesh buffer from per-vertex attributes and indices.

use crate::grid::{grid_vertex, GridVertex};
use crate::indices::{index_section, lemma_indices_are_vertices, triangle_index};
use crate::layout::{
    buffer_len, index_count, index_offset, lemma_max_resolution, normal_offset, texcoord_offset,
    valid_resolution, vertex_count, MeshError, MeshLayout, MAX_RESOLUTION,
};
use vstd::prelude::*;

verus! {

/// What the buffer stores of one vertex.
#[derive(Clone, Copy, Debug, PartialEq)]
pub struct VertexAttributes<T> {
    /// World position: x, height, z.
    pub position: [T; 3],
    /// Surface normal.
    pub normal: [T; 3],
    /// Texture coordinate.
    pub texcoord: [T; 2],
}

/// All positions, vertex after vertex, three slots each.
pub open spec fn position_section<T>(vertices: Seq<VertexAttributes<T>>) -> Seq<T> {
    Seq::new(3 * vertices.len(), |slot: int| vertices[slot / 3].position@[slot % 3])
}

/// All normals, vertex after vertex, three slots each.
pub open spec fn normal_section<T>(vertices: Seq<VertexAttributes<T>>) -> Seq<T> {
    Seq::new(3 * vertices.len(), |slot: int| vertices[slot / 3].normal@[slot % 3])
}

/// All texture coordinates, vertex after vertex, two slots each.
pub open spec fn texcoord_section<T>(vertices: Seq<VertexAttributes<T>>) -> Seq<T> {
    Seq::new(2 * vertices.len(), |slot: int| vertices[slot / 2].texcoord@[slot % 2])
}

/// The flat buffer: positions, normals, texture coordinates, then indices.
pub open spec fn mesh_buffer<T>(vertices: Seq<VertexAttributes<T>>, indices: Seq<T>) -> Seq<T> {
    position_section(vertices) + normal_section(vertices) + texcoord_section(vertices) + indices
}

/// Whether `vertices` holds, for each vertex of the grid in order of rank,
/// attributes that `shade` can return for that vertex.
pub open spec fn shaded_by<T, S: Fn(GridVertex) -> VertexAttributes<T>>(
    shade: S,
    resolution: nat,
    vertices: Seq<VertexAttributes<T>>,
) -> bool {
    &&& vertices.len() == vertex_count(resolution)
    &&& forall|index: int|
        0 <= index < vertices.len() ==> call_ensures(
            shade,
            (grid_vertex(resolution, index as nat),),
            #[trigger] vertices[index],
        )
}

/// Whether `indices` holds, for each slot of the index section in order, a
/// value that `index_value` can return for the vertex rank of that slot.
pub open spec fn converted_by<T, C: Fn(u32) -> T>(
    index_value: C,
    resolution: nat,
    indices: Seq<T>,
) -> bool {
    &&& indices.len() == index_count(resolution)
    &&& forall|slot: int|
        0 <= slot < indices.len() ==> call_ensures(
            index_value,
            (index_section(resolution)[slot],),
            #[trigger] indices[slot],
        )
}

/// Whether `buffer` is the mesh of a grid with `resolution` quads per axis
/// whose vertex attributes come from `shade` and whose index values come from
/// `index_value`.
pub open spec fn is_terrain_mesh<T, S: Fn(GridVertex) -> VertexAttributes<T>, C: Fn(u32) -> T>(
    buffer: Seq<T>,
    resolution: nat,
    shade: S,
    index_value: C,
) -> bool {
    exists|vertices: Seq<VertexAttributes<T>>, indices: Seq<T>|
        {
            &&& shaded_by(shade, resolution, vertices)
            &&& converted_by(index_value, resolution, indices)
            &&& buffer == #[trigger] mesh_buffer(vertices, indices)
        }
}

/// Each section of a mesh buffer starts at the offset that the layout gives
/// it and holds exactly its own part of the mesh.
pub proof fn lemma_mesh_buffer_sections<T>(
    resolution: nat,
    vertices: Seq<VertexAttributes<T>>,
    indices: Seq<T>,
)
    requires
        vertices.len() == vertex_count(resolution),
        indices.len() == index_count(resolution),
    ensures
        mesh_buffer(vertices, indices).len() == buffer_len(resolution),
        mesh_buffer(vertices, indices).subrange(0, normal_offset(resolution) as int)
            == position_section(vertices),
        mesh_buffer(vertices, indices).subrange(
            normal_offset(resolution) as int,
            texcoord_offset(resolution) as int,
        ) == normal_section(vertices),
        mesh_buffer(vertices, indices).subrange(
            texcoord_offset(resolution) as int,
            index_offset(resolution) as int,
        ) == texcoord_section(vertices),
        mesh_buffer(vertices, indices).subrange(
            index_offset(resolution) as int,
            buffer_len(resolution) as int,
        ) == indices,
{
    let buffer = mesh_buffer(vertices, indices);
    assert(buffer.subrange(0, normal_offset(resolution) as int) =~= position_section(vertices));
    assert(buffer.subrange(normal_offset(resolution) as int, texcoord_offset(resolution) as int)
        =~= normal_section(vertices));
    assert(buffer.subrange(texcoord_offset(resolution) as int, index_offset(resolution) as int)
        =~= texcoord_section(vertices));
    assert(buffer.subrange(index_offset(resolution) as int, buffer_len(resolution) as int)
        =~= indices);
}

/// The slots of one vertex: its position and its normal stand at three times
/// its rank within their sections, its texture coordinate at twice its rank.
pub proof fn lemma_mesh_buffer_vertex_slots<T>(
    resolution: nat,
    vertices: Seq<VertexAttributes<T>>,
    indices: Seq<T>,
    index: int,
)
    requires
        vertices.len() == vertex_count(resolution),
        0 <= index < vertex_count(resolution),
    ensures
        forall|axis: int|
            0 <= axis < 3 ==> #[trigger] mesh_buffer(vertices, indices)[3 * index + axis]
                == vertices[index].position@[axis],
        forall|axis: int|
            0 <= axis < 3 ==> #[trigger] mesh_buffer(vertices, indices)[normal_offset(resolution)
                + 3 * index + axis] == vertices[index].normal@[axis],
        forall|axis: int|
            0 <= axis < 2 ==> #[trigger] mesh_buffer(vertices, indices)[texcoord_offset(resolution)
                + 2 * index + axis] == vertices[index].texcoord@[axis],
{
}

/// The slots of the index section follow the per-vertex sections.
pub proof fn lemma_mesh_buffer_index_slots<T>(
    resolution: nat,
    vertices: Seq<VertexAttributes<T>>,
    indices: Seq<T>,
    slot: int,
)
    requires
        vertices.len() == vertex_count(resolution),
        0 <= slot < indices.len(),
    ensures
        mesh_buffer(vertices, indices)[index_offset(resolution) + slot] == indices[slot],
{
}

/// Whether the slots of the vertex of rank `index` hold `attributes`.
pub open spec fn holds_vertex<T>(
    buffer: Seq<T>,
    resolution: nat,
    index: int,
    attributes: VertexAttributes<T>,
) -> bool {
    &&& forall|axis: int|
        0 <= axis < 3 ==> #[trigger] buffer[3 * index + axis] == attributes.position@[axis]
    &&& forall|axis: int|
        0 <= axis < 3 ==> #[trigger] buffer[normal_offset(resolution) + 3 * index + axis]
            == attributes.normal@[axis]
    &&& forall|axis: int|
        0 <= axis < 2 ==> #[trigger] buffer[texcoord_offset(resolution) + 2 * index + axis]
            == attributes.texcoord@[axis]
}

/// In a terrain mesh the slots of every vertex hold attributes that `shade`
/// can return for that vertex.
pub proof fn lemma_terrain_mesh_vertex<
    T,
    S: Fn(GridVertex) -> VertexAttributes<T>,
    C: Fn(u32) -> T,
>(buffer: Seq<T>, resolution: nat, shade: S, index_value: C, index: int)
    requires
        is_terrain_mesh(buffer, resolution, shade, index_value),
        0 <= index < vertex_count(resolution),
    ensures
        exists|attributes: VertexAttributes<T>|
            {
                &&& #[trigger] call_ensures(
                    shade,
                    (grid_vertex(resolution, index as nat),),
                    attributes,
                )
                &&& holds_vertex(buffer, resolution, index, attributes)
            },
{
    let (vertices, indices) = choose|vertices: Seq<VertexAttributes<T>>, indices: Seq<T>|
        {
            &&& shaded_by(shade, resolution, vertices)
            &&& converted_by(index_value, resolution, indices)
            &&& buffer == #[trigger] mesh_buffer(vertices, indices)
        };
    lemma_mesh_buffer_vertex_slots(resolution, vertices, indices, index);
    assert(call_ensures(shade, (grid_vertex(resolution, index as nat),), vertices[index]));
    assert(holds_vertex(buffer, resolution, index, vertices[index]));
}

/// In a terrain mesh every slot of the index section holds a value that
/// `index_value` can return for the rank of a vertex of the grid.
pub proof fn lemma_terrain_mesh_index<
    T,
    S: Fn(GridVertex) -> VertexAttributes<T>,
    C: Fn(u32) -> T,
>(buffer: Seq<T>, resolution: nat, shade: S, index_value: C, slot: int)
    requires
        valid_resolution(resolution),
        is_terrain_mesh(buffer, resolution, shade, index_value),
        0 <= slot < index_count(resolution),
    ensures
        index_section(resolution)[slot] == triangle_index(resolution, slot as nat),
        index_section(resolution)[slot] < vertex_count(resolution),
        call_ensures(
            index_value,
            (index_section(resolution)[slot],),
            buffer[index_offset(resolution) + slot],
        ),
{
    let (vertices, indices) = choose|vertices: Seq<VertexAttributes<T>>, indices: Seq<T>|
        {
            &&& shaded_by(shade, resolution, vertices)
            &&& converted_by(index_value, resolution, indices)
            &&& buffer == #[trigger] mesh_buffer(vertices, indices)
        };
    lemma_mesh_buffer_index_slots(resolution, vertices, indices, slot);
    lemma_indices_are_vertices(resolution, slot as nat);
    lemma_max_resolution(resolution);
    assert(call_ensures(index_value, (index_section(resolution)[slot],), indices[slot]));
}

/// Packs vertex attributes and index values into one flat buffer.
pub fn pack_mesh<T: Copy>(vertices: &Vec<VertexAttributes<T>>, indices: &Vec<T>) -> (buffer: Vec<T>)
    ensures
        buffer@ == mesh_buffer(vertices@, indices@),
{
    let count = vertices.len();
    let mut buffer: Vec<T> = Vec::new();
    let mut i: usize = 0;
    while i < count
        invariant
            count == vertices.len(),
            i <= count,
            buffer@ == position_section(vertices@.subrange(0, i as int)),
        decreases count - i,
    {
        let vertex = vertices[i];
        buffer.push(vertex.position[0]);
        buffer.push(vertex.position[1]);
        buffer.push(vertex.position[2]);
        i = i + 1;
        proof {
            assert(buffer@ =~= position_section(vertices@.subrange(0, i as int)));
        }
    }
    proof {
        assert(vertices@.subrange(0, count as int) =~= vertices@);
    }
    let ghost positions = buffer@;
    i = 0;
    while i < count
        invariant
            count == vertices.len(),
            i <= count,
            buffer@ == positions + normal_section(vertices@.subrange(0, i as int)),
        decreases count - i,
    {
        let vertex = vertices[i];
        buffer.push(vertex.normal[0]);
        buffer.push(vertex.normal[1]);
        buffer.push(vertex.normal[2]);
        i = i + 1;
        proof {
            assert(buffer@ =~= positions + normal_section(vertices@.subrange(0, i as int)));
        }
    }
    let ghost normals = buffer@;
    i = 0;
    while i < count
        invariant
            count == vertices.len(),
            i <= count,
            buffer@ == normals + texcoord_section(vertices@.subrange(0, i as int)),
        decreases count - i,
    {
        let vertex = vertices[i];
        buffer.push(vertex.texcoord[0]);
        buffer.push(vertex.texcoord[1]);
        i = i + 1;
        proof {
            assert(buffer@ =~= normals + texcoord_section(vertices@.subrange(0, i as int)));
        }
    }
    let ghost texcoords = buffer@;
    let index_total = indices.len();
    i = 0;
    while i < index_total
        invariant
            index_total == indices.len(),
            i <= index_total,
            buffer@ == texcoords + indices@.subrange(0, i as int),
        decreases index_total - i,
    {
        buffer.push(indices[i]);
        i = i + 1;
        proof {
            assert(buffer@ =~= texcoords + indices@.subrange(0, i as int));
        }
    }
    proof {
        assert(indices@.subrange(0, index_total as int) =~= indices@);
    }
    buffer
}

/// Generates the mesh buffer of a square grid with `resolution` quads per axis.
///
/// `shade` computes the attributes of each vertex and `index_value` turns a
/// vertex rank into a buffer element. Neither is called unless the resolution
/// is valid.
pub fn generate_terrain_mesh<T, S, C>(resolution: u32, shade: S, index_value: C) -> (result: Result<
    Vec<T>,
    MeshError,
>) where T: Copy, S: Fn(GridVertex) -> VertexAttributes<T>, C: Fn(u32) -> T
    requires
        valid_resolution(resolution as nat) ==> forall|index: nat|
            index < vertex_count(resolution as nat) ==> call_requires(
                shade,
                (#[trigger] grid_vertex(resolution as nat, index),),
            ),
        valid_resolution(resolution as nat) ==> forall|slot: int|
            0 <= slot < index_count(resolution as nat) ==> call_requires(
                index_value,
                (#[trigger] index_section(resolution as nat)[slot],),
            ),
    ensures
        match result {
            Ok(buffer) => {
                &&& valid_resolution(resolution as nat)
                &&& buffer.len() == buffer_len(resolution as nat)
                &&& is_terrain_mesh(buffer@, resolution as nat, shade, index_value)
            },
            Err(MeshError::ZeroResolution) => resolution == 0,
            Err(MeshError::TooLarge) => {
                &&& resolution > MAX_RESOLUTION
                &&& buffer_len(resolution as nat) > u32::MAX
            },
        },
{
    let layout = match MeshLayout::new(resolution) {
        Ok(layout) => layout,
        Err(error) => {
            return Err(error);
        },
    };
    let vertex_total = layout.vertex_count();
    let mut vertices: Vec<VertexAttributes<T>> = Vec::new();
    let mut index: u32 = 0;
    while index < vertex_total
        invariant
            layout@ == resolution,
            valid_resolution(resolution as nat),
            vertex_total == vertex_count(resolution as nat),
            index <= vertex_total,
            vertices.len() == index,
            forall|index: nat|
                index < vertex_count(resolution as nat) ==> call_requires(
                    shade,
                    (#[trigger] grid_vertex(resolution as nat, index),),
                ),
            forall|done: int|
                0 <= done < vertices.len() ==> call_ensures(
                    shade,
                    (grid_vertex(resolution as nat, done as nat),),
                    #[trigger] vertices[done],
                ),
        decreases vertex_total - index,
    {
        let vertex = layout.vertex(index).unwrap();
        let attributes = shade(vertex);
        vertices.push(attributes);
        index = index + 1;
    }
    let source = layout.index_section();
    let index_total = source.len();
    let mut indices: Vec<T> = Vec::new();
    let mut slot: usize = 0;
    while slot < index_total
        invariant
            valid_resolution(resolution as nat),
            source@ == index_section(resolution as nat),
            index_total == source.len(),
            slot <= index_total,
            indices.len() == slot,
            forall|slot: int|
                0 <= slot < index_count(resolution as nat) ==> call_requires(
                    index_value,
                    (#[trigger] index_section(resolution as nat)[slot],),
                ),
            forall|done: int|
                0 <= done < indices.len() ==> call_ensures(
                    index_value,
                    (index_section(resolution as nat)[done],),
                    #[trigger] indices[done],
                ),
        decreases index_total - slot,
    {
        let value = index_value(source[slot]);
        indices.push(value);
        slot = slot + 1;
    }
    let buffer = pack_mesh(&vertices, &indices);
    Ok(buffer)
}

} // verus!
