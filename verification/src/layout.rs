//! Section sizes and offsets of the flat mesh buffer.

use vstd::prelude::*;

verus! {

/// Vertices along one side of a grid that has `resolution` quads per axis.
pub open spec fn vertices_per_row(resolution: nat) -> nat {
    resolution + 1
}

/// Vertices in the whole grid.
pub open spec fn vertex_count(resolution: nat) -> nat {
    (resolution + 1) * (resolution + 1)
}

/// Entries of the index section: two triangles of three corners for each quad.
pub open spec fn index_count(resolution: nat) -> nat {
    6 * (resolution * resolution)
}

/// First slot of the normal section.
pub open spec fn normal_offset(resolution: nat) -> nat {
    3 * vertex_count(resolution)
}

/// First slot of the texture coordinate section.
pub open spec fn texcoord_offset(resolution: nat) -> nat {
    normal_offset(resolution) + 3 * vertex_count(resolution)
}

/// First slot of the index section.
pub open spec fn index_offset(resolution: nat) -> nat {
    texcoord_offset(resolution) + 2 * vertex_count(resolution)
}

/// Slots in the whole buffer: eight for each vertex and one for each index.
pub open spec fn buffer_len(resolution: nat) -> nat {
    8 * vertex_count(resolution) + index_count(resolution)
}

/// Largest resolution whose buffer can be addressed with a `u32`.
pub const MAX_RESOLUTION: u32 = 17514;

/// Whether a grid with `resolution` quads per axis has a buffer at all.
pub open spec fn valid_resolution(resolution: nat) -> bool {
    1 <= resolution <= MAX_RESOLUTION
}

/// Why no mesh can be laid out.
#[derive(Clone, Copy, Debug, PartialEq, Eq, Structural)]
pub enum MeshError {
    /// The grid has no quads.
    ZeroResolution,
    /// The buffer would have more slots than a `u32` can address.
    TooLarge,
}

/// No count and no buffer length shrinks as the resolution grows.
pub proof fn lemma_buffer_len_monotonic(a: nat, b: nat)
    requires
        a <= b,
    ensures
        buffer_len(a) <= buffer_len(b),
        vertex_count(a) <= vertex_count(b),
        index_count(a) <= index_count(b),
{
    assert((a + 1) * (a + 1) <= (b + 1) * (b + 1)) by (nonlinear_arith)
        requires
            a <= b,
    ;
    assert(a * a <= b * b) by (nonlinear_arith)
        requires
            a <= b,
    ;
}

/// A buffer fits a `u32` exactly up to `MAX_RESOLUTION`.
pub proof fn lemma_max_resolution(resolution: nat)
    ensures
        buffer_len(resolution) <= u32::MAX <==> resolution <= MAX_RESOLUTION,
{
    let m: nat = 17514;
    assert((m + 1) * (m + 1) == 306775225) by (nonlinear_arith)
        requires
            m == 17514,
    ;
    assert(m * m == 306740196) by (nonlinear_arith)
        requires
            m == 17514,
    ;
    assert((m + 2) * (m + 2) == 306810256) by (nonlinear_arith)
        requires
            m == 17514,
    ;
    assert(buffer_len(m) == 4294642976);
    assert(buffer_len(m + 1) == 4295133398);
    if resolution <= m {
        lemma_buffer_len_monotonic(resolution, m);
    } else {
        lemma_buffer_len_monotonic(m + 1, resolution);
    }
}

/// Sizes and offsets of the four sections of one mesh buffer.
///
/// The buffer holds, in this order, three position slots per vertex, three
/// normal slots per vertex, two texture coordinate slots per vertex, and the
/// triangle indices. The view of a layout is its resolution.
#[derive(Clone, Copy, Debug, PartialEq, Eq, Structural)]
pub struct MeshLayout {
    resolution: u32,
    vertices_per_row: u32,
    vertex_count: u32,
    index_count: u32,
    normal_offset: u32,
    texcoord_offset: u32,
    index_offset: u32,
    len: u32,
}

impl View for MeshLayout {
    type V = nat;

    closed spec fn view(&self) -> nat {
        self.resolution as nat
    }
}

impl MeshLayout {
    #[verifier::type_invariant]
    spec fn consistent(self) -> bool {
        &&& valid_resolution(self@)
        &&& self.vertices_per_row == vertices_per_row(self@)
        &&& self.vertex_count == vertex_count(self@)
        &&& self.index_count == index_count(self@)
        &&& self.normal_offset == normal_offset(self@)
        &&& self.texcoord_offset == texcoord_offset(self@)
        &&& self.index_offset == index_offset(self@)
        &&& self.len == buffer_len(self@)
    }

    /// Lays out the buffer of a grid with `resolution` quads per axis.
    pub fn new(resolution: u32) -> (result: Result<MeshLayout, MeshError>)
        ensures
            match result {
                Ok(layout) => valid_resolution(resolution as nat) && layout@ == resolution,
                Err(MeshError::ZeroResolution) => resolution == 0,
                Err(MeshError::TooLarge) => {
                    &&& resolution > MAX_RESOLUTION
                    &&& buffer_len(resolution as nat) > u32::MAX
                },
            },
    {
        proof {
            lemma_max_resolution(resolution as nat);
        }
        if resolution == 0 {
            return Err(MeshError::ZeroResolution);
        }
        if resolution > MAX_RESOLUTION {
            return Err(MeshError::TooLarge);
        }
        proof {
            assert((resolution + 1) * (resolution + 1) >= 0) by (nonlinear_arith);
            assert(resolution * resolution >= 0) by (nonlinear_arith);
        }
        let vertices_per_row: u32 = resolution + 1;
        let vertex_count: u32 = vertices_per_row * vertices_per_row;
        let index_count: u32 = 6 * (resolution * resolution);
        let normal_offset: u32 = 3 * vertex_count;
        let texcoord_offset: u32 = normal_offset + 3 * vertex_count;
        let index_offset: u32 = texcoord_offset + 2 * vertex_count;
        let len: u32 = index_offset + index_count;
        Ok(
            MeshLayout {
                resolution,
                vertices_per_row,
                vertex_count,
                index_count,
                normal_offset,
                texcoord_offset,
                index_offset,
                len,
            },
        )
    }

    /// Quads per axis.
    pub fn resolution(&self) -> (n: u32)
        ensures
            n == self@,
            valid_resolution(self@),
    {
        proof {
            use_type_invariant(self);
        }
        self.resolution
    }

    /// Vertices along one side of the grid.
    pub fn vertices_per_row(&self) -> (n: u32)
        ensures
            n == vertices_per_row(self@),
            valid_resolution(self@),
    {
        proof {
            use_type_invariant(self);
        }
        self.vertices_per_row
    }

    /// Vertices in the grid.
    pub fn vertex_count(&self) -> (n: u32)
        ensures
            n == vertex_count(self@),
            valid_resolution(self@),
    {
        proof {
            use_type_invariant(self);
        }
        self.vertex_count
    }

    /// Entries of the index section.
    pub fn index_count(&self) -> (n: u32)
        ensures
            n == index_count(self@),
            valid_resolution(self@),
    {
        proof {
            use_type_invariant(self);
        }
        self.index_count
    }

    /// First slot of the position section, which opens the buffer.
    pub fn vertex_offset(&self) -> (n: u32)
        ensures
            n == 0,
    {
        0
    }

    /// First slot of the normal section.
    pub fn normal_offset(&self) -> (n: u32)
        ensures
            n == normal_offset(self@),
            valid_resolution(self@),
    {
        proof {
            use_type_invariant(self);
        }
        self.normal_offset
    }

    /// First slot of the texture coordinate section.
    pub fn texcoord_offset(&self) -> (n: u32)
        ensures
            n == texcoord_offset(self@),
            valid_resolution(self@),
    {
        proof {
            use_type_invariant(self);
        }
        self.texcoord_offset
    }

    /// First slot of the index section.
    pub fn index_offset(&self) -> (n: u32)
        ensures
            n == index_offset(self@),
            valid_resolution(self@),
    {
        proof {
            use_type_invariant(self);
        }
        self.index_offset
    }

    /// Slots in the whole buffer.
    pub fn len(&self) -> (n: u32)
        ensures
            n == buffer_len(self@),
            valid_resolution(self@),
    {
        proof {
            use_type_invariant(self);
        }
        self.len
    }
}

} // verus!
