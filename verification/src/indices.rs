//! The index section: two triangles for every quad of the grid.

use crate::grid::{lemma_vertex_index_in_range, lemma_vertex_index_injective, vertex_index};
use crate::layout::{
    index_count, lemma_max_resolution, valid_resolution, vertex_count, vertices_per_row,
    MeshLayout,
};
use vstd::arithmetic::div_mod::{lemma_fundamental_div_mod, lemma_fundamental_div_mod_converse};
use vstd::prelude::*;

verus! {

/// Rank of the quad in column `x` and row `z`. Quads are counted as vertices
/// are: column after column, and row after row within a column.
pub open spec fn quad_number(resolution: nat, x: nat, z: nat) -> nat {
    z + x * resolution
}

/// Corners of the two triangles of the quad in column `x` and row `z`, as
/// vertex ranks. The quad spans the cell between the vertices of columns `x`
/// and `x + 1` and of rows `z` and `z + 1`; its triangles are upper left,
/// upper right, lower left, and lower left, upper right, lower right.
pub open spec fn quad_corners(resolution: nat, x: nat, z: nat) -> Seq<nat> {
    let upper_left = vertex_index(resolution, x, z);
    let upper_right = vertex_index(resolution, x, z + 1);
    let lower_left = vertex_index(resolution, x + 1, z);
    let lower_right = vertex_index(resolution, x + 1, z + 1);
    seq![upper_left, upper_right, lower_left, lower_left, upper_right, lower_right]
}

/// The vertex rank held by one slot of the index section: quad after quad in
/// order of rank, six slots each.
pub open spec fn triangle_index(resolution: nat, slot: nat) -> nat {
    let quad = slot / 6;
    quad_corners(resolution, quad / resolution, quad % resolution)[(slot % 6) as int]
}

/// The whole index section.
pub open spec fn index_section(resolution: nat) -> Seq<u32> {
    Seq::new(index_count(resolution), |slot: int| triangle_index(resolution, slot as nat) as u32)
}

/// Every quad of the grid has a rank below the number of quads, and the rank
/// leads back to the quad.
pub proof fn lemma_quad_number_in_range(resolution: nat, x: nat, z: nat)
    requires
        x < resolution,
        z < resolution,
    ensures
        quad_number(resolution, x, z) < resolution * resolution,
        quad_number(resolution, x, z) / resolution == x,
        quad_number(resolution, x, z) % resolution == z,
        6 * quad_number(resolution, x, z) + 6 <= index_count(resolution),
{
    assert(x * resolution + resolution <= resolution * resolution) by (nonlinear_arith)
        requires
            x < resolution,
    ;
    lemma_fundamental_div_mod_converse(
        quad_number(resolution, x, z) as int,
        resolution as int,
        x as int,
        z as int,
    );
}

/// Every rank below the number of quads belongs to exactly one quad of the grid.
pub proof fn lemma_quad_of_number(resolution: nat, quad: nat)
    requires
        quad < resolution * resolution,
    ensures
        quad / resolution < resolution,
        quad % resolution < resolution,
        quad_number(resolution, quad / resolution, quad % resolution) == quad,
{
    let side = resolution as int;
    assert(0 < side) by (nonlinear_arith)
        requires
            quad < side * side,
            0 <= side,
    ;
    let x = quad as int / side;
    let z = quad as int % side;
    lemma_fundamental_div_mod(quad as int, side);
    assert(x < side) by (nonlinear_arith)
        requires
            quad == side * x + z,
            0 <= z,
            quad < side * side,
            0 < side,
    ;
    assert(0 <= x) by (nonlinear_arith)
        requires
            quad == side * x + z,
            z < side,
            0 <= quad,
            0 < side,
    ;
    assert(side * x == x * side) by (nonlinear_arith);
}

/// The four corners of a quad are the vertices of one cell of the grid: from
/// the upper left corner, the upper right one is the next vertex of the same
/// column and the lower ones are their neighbours in the next column.
pub proof fn lemma_quad_corners_are_one_cell(resolution: nat, x: nat, z: nat)
    requires
        x < resolution,
        z < resolution,
    ensures
        quad_corners(resolution, x, z)[0] == vertex_index(resolution, x, z),
        quad_corners(resolution, x, z)[1] == vertex_index(resolution, x, z + 1),
        quad_corners(resolution, x, z)[2] == vertex_index(resolution, x + 1, z),
        quad_corners(resolution, x, z)[5] == vertex_index(resolution, x + 1, z + 1),
        quad_corners(resolution, x, z)[1] == quad_corners(resolution, x, z)[0] + 1,
        quad_corners(resolution, x, z)[2] == quad_corners(resolution, x, z)[0] + vertices_per_row(
            resolution,
        ),
        quad_corners(resolution, x, z)[5] == quad_corners(resolution, x, z)[2] + 1,
        forall|corner: int|
            0 <= corner < 6 ==> #[trigger] quad_corners(resolution, x, z)[corner] < vertex_count(
                resolution,
            ),
{
    let row = vertices_per_row(resolution);
    assert((x + 1) * row == x * row + row) by (nonlinear_arith);
    lemma_vertex_index_in_range(resolution, x, z);
    lemma_vertex_index_in_range(resolution, x, z + 1);
    lemma_vertex_index_in_range(resolution, x + 1, z);
    lemma_vertex_index_in_range(resolution, x + 1, z + 1);
}

/// Every slot of the index section holds the rank of a vertex of the grid.
pub proof fn lemma_indices_are_vertices(resolution: nat, slot: nat)
    requires
        slot < index_count(resolution),
    ensures
        triangle_index(resolution, slot) < vertex_count(resolution),
{
    let quad = slot / 6;
    lemma_quad_of_number(resolution, quad);
    lemma_quad_corners_are_one_cell(resolution, quad / resolution, quad % resolution);
}

/// The two triangles of a quad meet along the edge from its lower left corner
/// to its upper right corner.
pub proof fn lemma_triangles_share_diagonal(resolution: nat, quad: nat)
    ensures
        triangle_index(resolution, 6 * quad + 2) == triangle_index(resolution, 6 * quad + 3),
        triangle_index(resolution, 6 * quad + 1) == triangle_index(resolution, 6 * quad + 4),
{
}

/// The six slots of a quad hold its six corners.
pub proof fn lemma_slots_of_quad(resolution: nat, x: nat, z: nat, corner: int)
    requires
        x < resolution,
        z < resolution,
        0 <= corner < 6,
    ensures
        6 * quad_number(resolution, x, z) + corner < index_count(resolution),
        triangle_index(resolution, (6 * quad_number(resolution, x, z) + corner) as nat)
            == quad_corners(resolution, x, z)[corner],
{
    lemma_quad_number_in_range(resolution, x, z);
}

/// Two quads with the same upper left corner are the same quad, so no cell of
/// the grid is covered twice.
pub proof fn lemma_quads_cover_distinct_cells(resolution: nat, first: nat, second: nat)
    requires
        first < resolution * resolution,
        second < resolution * resolution,
        triangle_index(resolution, 6 * first) == triangle_index(resolution, 6 * second),
    ensures
        first == second,
{
    lemma_quad_of_number(resolution, first);
    lemma_quad_of_number(resolution, second);
    lemma_vertex_index_injective(
        resolution,
        first / resolution,
        first % resolution,
        second / resolution,
        second % resolution,
    );
}

/// Every vertex of the grid is a corner of some triangle.
pub proof fn lemma_every_vertex_is_indexed(resolution: nat, rank: nat)
    requires
        1 <= resolution,
        rank < vertex_count(resolution),
    ensures
        exists|slot: nat|
            slot < index_count(resolution) && #[trigger] triangle_index(resolution, slot) == rank,
{
    let row = vertices_per_row(resolution) as int;
    let x = (rank as int / row) as nat;
    let z = (rank as int % row) as nat;
    lemma_fundamental_div_mod(rank as int, row);
    assert(rank as int / row <= resolution) by (nonlinear_arith)
        requires
            rank == row * (rank as int / row) + (rank as int % row),
            0 <= rank as int % row,
            rank < row * row,
            row == resolution + 1,
    ;
    assert(0 <= rank as int / row) by (nonlinear_arith)
        requires
            rank == row * (rank as int / row) + (rank as int % row),
            rank as int % row < row,
            0 <= rank,
            0 < row,
    ;
    assert(row * (rank as int / row) == (rank as int / row) * row) by (nonlinear_arith);
    assert(vertex_index(resolution, x, z) == rank);
    let quad_x: nat = if x == resolution {
        (x - 1) as nat
    } else {
        x
    };
    let quad_z: nat = if z == resolution {
        (z - 1) as nat
    } else {
        z
    };
    let corner: int = if x == quad_x {
        if z == quad_z {
            0
        } else {
            1
        }
    } else {
        if z == quad_z {
            2
        } else {
            5
        }
    };
    lemma_slots_of_quad(resolution, quad_x, quad_z, corner);
    lemma_quad_corners_are_one_cell(resolution, quad_x, quad_z);
    let slot = (6 * quad_number(resolution, quad_x, quad_z) + corner) as nat;
    assert(triangle_index(resolution, slot) == rank);
}

impl MeshLayout {
    /// The six corners of the two triangles of the quad in column `x` and row
    /// `z`, if the grid has a quad there.
    pub fn quad_triangles(&self, x: u32, z: u32) -> (corners: Option<[u32; 6]>)
        ensures
            corners.is_some() <==> x < self@ && z < self@,
            corners matches Some(c) ==> forall|corner: int|
                0 <= corner < 6 ==> #[trigger] c@[corner] == quad_corners(
                    self@,
                    x as nat,
                    z as nat,
                )[corner],
    {
        let resolution = self.resolution();
        if x >= resolution || z >= resolution {
            return None;
        }
        let row = self.vertices_per_row();
        proof {
            lemma_quad_corners_are_one_cell(self@, x as nat, z as nat);
            assert(quad_corners(self@, x as nat, z as nat)[5] < vertex_count(self@));
            lemma_max_resolution(self@);
            assert(0 <= x * row) by (nonlinear_arith);
        }
        let upper_left: u32 = z + x * row;
        let upper_right: u32 = upper_left + 1;
        let lower_left: u32 = upper_left + row;
        let lower_right: u32 = lower_left + 1;
        Some([upper_left, upper_right, lower_left, lower_left, upper_right, lower_right])
    }

    /// The index section of the buffer.
    pub fn index_section(&self) -> (indices: Vec<u32>)
        ensures
            indices@ == index_section(self@),
            forall|slot: int|
                0 <= slot < indices.len() ==> #[trigger] indices[slot] < vertex_count(self@),
    {
        let resolution = self.resolution();
        let mut indices: Vec<u32> = Vec::new();
        let mut x: u32 = 0;
        while x < resolution
            invariant
                resolution == self@,
                valid_resolution(self@),
                x <= resolution,
                indices.len() == 6 * (x * resolution),
                forall|slot: int|
                    0 <= slot < indices.len() ==> #[trigger] indices[slot] == triangle_index(
                        self@,
                        slot as nat,
                    ),
            decreases resolution - x,
        {
            let mut z: u32 = 0;
            while z < resolution
                invariant
                    resolution == self@,
                    valid_resolution(self@),
                    x < resolution,
                    z <= resolution,
                    indices.len() == 6 * (z + x * resolution),
                    forall|slot: int|
                        0 <= slot < indices.len() ==> #[trigger] indices[slot] == triangle_index(
                            self@,
                            slot as nat,
                        ),
                decreases resolution - z,
            {
                let corners = self.quad_triangles(x, z).unwrap();
                let ghost before = indices@;
                let ghost quad = quad_number(self@, x as nat, z as nat);
                indices.push(corners[0]);
                indices.push(corners[1]);
                indices.push(corners[2]);
                indices.push(corners[3]);
                indices.push(corners[4]);
                indices.push(corners[5]);
                proof {
                    assert(before.len() == 6 * quad);
                    lemma_quad_number_in_range(self@, x as nat, z as nat);
                    assert forall|slot: int| 0 <= slot < indices.len() implies #[trigger] indices[slot]
                        == triangle_index(self@, slot as nat) by {
                        if slot >= before.len() {
                            let corner = slot - 6 * quad;
                            assert(slot as nat / 6 == quad);
                            assert(slot as nat % 6 == corner);
                            assert(indices[slot] == corners@[corner]);
                        } else {
                            assert(indices[slot] == before[slot]);
                        }
                    }
                }
                z = z + 1;
            }
            proof {
                assert((x + 1) * resolution == x * resolution + resolution) by (nonlinear_arith);
            }
            x = x + 1;
        }
        proof {
            assert(indices.len() == index_count(self@));
            lemma_max_resolution(self@);
            assert forall|slot: int| 0 <= slot < indices.len() implies #[trigger] indices[slot]
                < vertex_count(self@) by {
                lemma_indices_are_vertices(self@, slot as nat);
            }
            assert(indices@ =~= index_section(self@));
        }
        indices
    }
}

} // verus!
