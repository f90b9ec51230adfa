//! The vertex grid: where each vertex sits and which points its normal samples.

use crate::layout::{
    lemma_max_resolution, vertex_count, vertices_per_row, MeshLayout, MAX_RESOLUTION,
};
use vstd::arithmetic::div_mod::{lemma_fundamental_div_mod, lemma_fundamental_div_mod_converse};
use vstd::prelude::*;

verus! {

/// A point of the integer lattice that carries the grid, in grid steps.
#[derive(Clone, Copy, Debug, PartialEq, Eq, Structural)]
pub struct GridPoint {
    pub x: i64,
    pub z: i64,
}

/// One vertex of the grid, with every integer that its attributes derive from.
#[derive(Clone, Copy, Debug, PartialEq, Eq, Structural)]
pub struct GridVertex {
    /// Column of the vertex, from 0 to the resolution.
    pub x: u32,
    /// Row of the vertex, from 0 to the resolution.
    pub z: u32,
    /// Rank of the vertex within each per-vertex section of the buffer.
    pub index: u32,
    /// Horizontal world position of the vertex, in step sizes.
    pub center: GridPoint,
    /// Sample point one column before the vertex.
    pub left: GridPoint,
    /// Sample point one column after the vertex.
    pub right: GridPoint,
    /// Sample point one row length before the vertex.
    pub up: GridPoint,
    /// Sample point one row length after the vertex.
    pub down: GridPoint,
}

/// Rank of the vertex in column `x` and row `z`.
pub open spec fn vertex_index(resolution: nat, x: nat, z: nat) -> nat {
    z + x * vertices_per_row(resolution)
}

/// The vertex in column `x` and row `z` of a grid with `resolution` quads per axis.
pub open spec fn grid_vertex_at(resolution: nat, x: nat, z: nat) -> GridVertex {
    GridVertex {
        x: x as u32,
        z: z as u32,
        index: vertex_index(resolution, x, z) as u32,
        center: GridPoint { x: (2 * x - 1) as i64, z: (2 * z - 1) as i64 },
        left: GridPoint { x: (x - 1) as i64, z: z as i64 },
        right: GridPoint { x: (x + 1) as i64, z: z as i64 },
        up: GridPoint { x: x as i64, z: (z - vertices_per_row(resolution)) as i64 },
        down: GridPoint { x: x as i64, z: (z + vertices_per_row(resolution)) as i64 },
    }
}

/// The vertex of rank `index`.
pub open spec fn grid_vertex(resolution: nat, index: nat) -> GridVertex {
    grid_vertex_at(
        resolution,
        index / vertices_per_row(resolution),
        index % vertices_per_row(resolution),
    )
}

/// Every vertex of the grid has a rank below the vertex count, and the rank
/// leads back to the vertex.
pub proof fn lemma_vertex_index_in_range(resolution: nat, x: nat, z: nat)
    requires
        x <= resolution,
        z <= resolution,
    ensures
        vertex_index(resolution, x, z) < vertex_count(resolution),
        vertex_index(resolution, x, z) / vertices_per_row(resolution) == x,
        vertex_index(resolution, x, z) % vertices_per_row(resolution) == z,
        grid_vertex(resolution, vertex_index(resolution, x, z)) == grid_vertex_at(
            resolution,
            x,
            z,
        ),
{
    let row = vertices_per_row(resolution) as int;
    assert(x * row <= resolution * row) by (nonlinear_arith)
        requires
            x <= resolution,
            0 <= row,
    ;
    assert((resolution + 1) * (resolution + 1) == resolution * row + row) by (nonlinear_arith)
        requires
            row == resolution + 1,
    ;
    lemma_fundamental_div_mod_converse(
        vertex_index(resolution, x, z) as int,
        row,
        x as int,
        z as int,
    );
}

/// Every rank below the vertex count belongs to exactly one vertex of the grid.
pub proof fn lemma_vertex_of_index(resolution: nat, index: nat)
    requires
        resolution <= MAX_RESOLUTION,
        index < vertex_count(resolution),
    ensures
        grid_vertex(resolution, index).x <= resolution,
        grid_vertex(resolution, index).z <= resolution,
        grid_vertex(resolution, index).index == index,
        vertex_index(
            resolution,
            index / vertices_per_row(resolution),
            index % vertices_per_row(resolution),
        ) == index,
{
    let row = vertices_per_row(resolution) as int;
    let x = index as int / row;
    let z = index as int % row;
    lemma_fundamental_div_mod(index as int, row);
    assert(x <= resolution) by (nonlinear_arith)
        requires
            index == row * x + z,
            0 <= z,
            index < row * row,
            row == resolution + 1,
    ;
    assert(0 <= x) by (nonlinear_arith)
        requires
            index == row * x + z,
            z < row,
            0 <= index,
            0 < row,
    ;
    assert(row * x == x * row) by (nonlinear_arith);
    lemma_max_resolution(resolution);
}

/// Two vertices of the grid with the same rank are the same vertex.
pub proof fn lemma_vertex_index_injective(resolution: nat, x1: nat, z1: nat, x2: nat, z2: nat)
    requires
        x1 <= resolution,
        z1 <= resolution,
        x2 <= resolution,
        z2 <= resolution,
        vertex_index(resolution, x1, z1) == vertex_index(resolution, x2, z2),
    ensures
        x1 == x2,
        z1 == z2,
{
    lemma_vertex_index_in_range(resolution, x1, z1);
    lemma_vertex_index_in_range(resolution, x2, z2);
}

impl MeshLayout {
    /// The vertex in column `x` and row `z`, if the grid has one there.
    pub fn vertex_at(&self, x: u32, z: u32) -> (vertex: Option<GridVertex>)
        ensures
            vertex.is_some() <==> x <= self@ && z <= self@,
            vertex matches Some(v) ==> v == grid_vertex_at(self@, x as nat, z as nat),
    {
        let resolution = self.resolution();
        if x > resolution || z > resolution {
            return None;
        }
        let row = self.vertices_per_row();
        proof {
            lemma_vertex_index_in_range(self@, x as nat, z as nat);
            lemma_max_resolution(self@);
            assert(0 <= x * row) by (nonlinear_arith);
        }
        let index: u32 = z + x * row;
        let x_wide: i64 = x as i64;
        let z_wide: i64 = z as i64;
        let row_wide: i64 = row as i64;
        Some(
            GridVertex {
                x,
                z,
                index,
                center: GridPoint { x: 2 * x_wide - 1, z: 2 * z_wide - 1 },
                left: GridPoint { x: x_wide - 1, z: z_wide },
                right: GridPoint { x: x_wide + 1, z: z_wide },
                up: GridPoint { x: x_wide, z: z_wide - row_wide },
                down: GridPoint { x: x_wide, z: z_wide + row_wide },
            },
        )
    }

    /// The vertex of rank `index`, if the grid has that many vertices.
    pub fn vertex(&self, index: u32) -> (vertex: Option<GridVertex>)
        ensures
            vertex.is_some() <==> index < vertex_count(self@),
            vertex matches Some(v) ==> v == grid_vertex(self@, index as nat),
    {
        if index >= self.vertex_count() {
            return None;
        }
        let row = self.vertices_per_row();
        proof {
            lemma_vertex_of_index(self@, index as nat);
        }
        self.vertex_at(index / row, index % row)
    }
}

} // verus!
