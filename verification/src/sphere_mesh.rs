//! A small fixed cube, drawn as a marker.

use vstd::prelude::*;
use vstd::arithmetic::power2::lemma2_to64;
use crate::single::{is_nearest, lemma_round_to_nearest};
use crate::vertex::{
    LayoutView, Vertex, VertexAttribute, VertexBufferLayout, VertexFormat, VertexStepMode,
};

verus! {

/// Half of the cube's edge: the binary32 number nearest to `0.05`.
pub const HALF_EXTENT: u32 = 0x3d4c_cccd;

/// The negative of [`HALF_EXTENT`]: the same pattern with the sign bit set.
pub const NEG_HALF_EXTENT: u32 = 0xbd4c_cccd;

/// One corner of the marker: a position of three binary32 bit patterns.
#[derive(Clone, Copy, Debug)]
pub struct SphereMeshVertex {
    position: [u32; 3],
}

/// The marker's geometry: its corners, and the corners of its triangles
/// as indices into them.
pub struct SphereMesh {
    pub vertices: Vec<SphereMeshVertex>,
    pub indices: Vec<u16>,
    /// Number of vertices.
    pub len: u32,
}

/// The eight corners of the cube. The first four lie in the plane of
/// negative `z`, the last four in the plane of positive `z`, each four in
/// the same order around the `z` axis.
pub open spec fn cube_corners() -> Seq<[u32; 3]> {
    seq![
        [NEG_HALF_EXTENT, NEG_HALF_EXTENT, NEG_HALF_EXTENT],
        [HALF_EXTENT, NEG_HALF_EXTENT, NEG_HALF_EXTENT],
        [HALF_EXTENT, HALF_EXTENT, NEG_HALF_EXTENT],
        [NEG_HALF_EXTENT, HALF_EXTENT, NEG_HALF_EXTENT],
        [NEG_HALF_EXTENT, NEG_HALF_EXTENT, HALF_EXTENT],
        [HALF_EXTENT, NEG_HALF_EXTENT, HALF_EXTENT],
        [HALF_EXTENT, HALF_EXTENT, HALF_EXTENT],
        [NEG_HALF_EXTENT, HALF_EXTENT, HALF_EXTENT],
    ]
}

/// The twelve triangles of the cube, three indices each, two triangles
/// for each face.
pub open spec fn cube_indices() -> Seq<u16> {
    seq![
        0u16, 1, 3, 3, 1, 2,
        1, 5, 2, 2, 5, 6,
        5, 4, 6, 6, 4, 7,
        4, 0, 7, 7, 0, 3,
        3, 2, 7, 7, 2, 6,
        4, 5, 0, 0, 5, 1,
    ]
}

/// Two positions are the same point: they agree on every axis.
pub open spec fn same_point(a: [u32; 3], b: [u32; 3]) -> bool {
    a[0] == b[0] && a[1] == b[1] && a[2] == b[2]
}

/// The axis (0, 1 or 2 for x, y or z) that face `face` is perpendicular to.
pub open spec fn face_axis(face: int) -> int {
    if face == 0 || face == 2 {
        2
    } else if face == 1 || face == 3 {
        0
    } else {
        1
    }
}

/// The coordinate on [`face_axis`] that all points of face `face` share.
pub open spec fn face_side(face: int) -> u32 {
    if face == 0 || face == 3 || face == 5 {
        NEG_HALF_EXTENT
    } else {
        HALF_EXTENT
    }
}

impl SphereMeshVertex {
    /// A vertex at the given position.
    pub fn new(position: [u32; 3]) -> (vertex: Self)
        ensures
            vertex.position() == position,
    {
        SphereMeshVertex { position }
    }

    /// The position of the vertex.
    pub closed spec fn spec_position(&self) -> [u32; 3] {
        self.position
    }

    /// The position of the vertex.
    #[verifier::when_used_as_spec(spec_position)]
    pub fn position(&self) -> (position: [u32; 3])
        ensures
            position == self.spec_position(),
    {
        self.position
    }
}

impl Default for SphereMeshVertex {
    /// The vertex at the origin.
    fn default() -> (vertex: Self)
        ensures
            vertex.position() == [0u32, 0u32, 0u32],
    {
        SphereMeshVertex { position: [0, 0, 0] }
    }
}

impl Vertex for SphereMeshVertex {
    open spec fn record_size() -> nat {
        12
    }

    /// One position of three floats in slot 0, stepped once per vertex.
    open spec fn layout() -> LayoutView {
        LayoutView {
            array_stride: 12,
            step_mode: VertexStepMode::Vertex,
            attributes: seq![
                VertexAttribute { format: VertexFormat::Float32x3, offset: 0, shader_location: 0 },
            ],
        }
    }

    fn desc() -> (layout: VertexBufferLayout) {
        let layout = VertexBufferLayout {
            array_stride: 12,
            step_mode: VertexStepMode::Vertex,
            attributes: vec![
                VertexAttribute { format: VertexFormat::Float32x3, offset: 0, shader_location: 0 },
            ],
        };
        assert(layout@.attributes =~= Self::layout().attributes);
        layout
    }
}

impl SphereMesh {
    /// The positions of the vertices, in order.
    pub open spec fn positions(&self) -> Seq<[u32; 3]> {
        Seq::new(self.vertices.len() as nat, |k: int| self.vertices[k].position())
    }

    /// The vertex count is recorded, the indices come in threes, and each
    /// of them names a vertex.
    pub open spec fn well_formed(&self) -> bool {
        &&& self.len == self.vertices.len()
        &&& self.indices.len() % 3 == 0
        &&& forall|i: int| 0 <= i < self.indices.len() ==> (#[trigger] self.indices[i]) < self.len
    }

    /// Builds the marker cube.
    pub fn new() -> (mesh: Self)
        ensures
            mesh.positions() == cube_corners(),
            mesh.indices@ == cube_indices(),
            mesh.len == 8,
            mesh.well_formed(),
    {
        let vertices = vec![
            SphereMeshVertex { position: [NEG_HALF_EXTENT, NEG_HALF_EXTENT, NEG_HALF_EXTENT] },
            SphereMeshVertex { position: [HALF_EXTENT, NEG_HALF_EXTENT, NEG_HALF_EXTENT] },
            SphereMeshVertex { position: [HALF_EXTENT, HALF_EXTENT, NEG_HALF_EXTENT] },
            SphereMeshVertex { position: [NEG_HALF_EXTENT, HALF_EXTENT, NEG_HALF_EXTENT] },
            SphereMeshVertex { position: [NEG_HALF_EXTENT, NEG_HALF_EXTENT, HALF_EXTENT] },
            SphereMeshVertex { position: [HALF_EXTENT, NEG_HALF_EXTENT, HALF_EXTENT] },
            SphereMeshVertex { position: [HALF_EXTENT, HALF_EXTENT, HALF_EXTENT] },
            SphereMeshVertex { position: [NEG_HALF_EXTENT, HALF_EXTENT, HALF_EXTENT] },
        ];
        let length: usize = vertices.len();
        let indices: Vec<u16> = vec![
            0, 1, 3, 3, 1, 2,
            1, 5, 2, 2, 5, 6,
            5, 4, 6, 6, 4, 7,
            4, 0, 7, 7, 0, 3,
            3, 2, 7, 7, 2, 6,
            4, 5, 0, 0, 5, 1,
        ];
        let mesh = SphereMesh { vertices, indices, len: length as u32 };
        assert(mesh.positions() =~= cube_corners());
        assert(mesh.indices@ =~= cube_indices());
        mesh
    }
}

/// The half-extent is the one binary32 number nearest to one twentieth,
/// and its negative differs from it in the sign bit alone.
pub proof fn lemma_half_extent()
    ensures
        is_nearest(HALF_EXTENT, 1, 20),
        forall|other: u32| is_nearest(other, 1, 20) ==> other == HALF_EXTENT,
        NEG_HALF_EXTENT == HALF_EXTENT + 0x8000_0000,
{
    lemma2_to64();
    lemma_round_to_nearest(HALF_EXTENT, 122, 0xcc_cccd, 1, 20);
}

/// The corners are the eight points whose coordinates are each the
/// half-extent or its negative: every coordinate is one of the two, and no
/// two corners are the same point.
pub proof fn lemma_corners_of_a_cube()
    ensures
        cube_corners().len() == 8,
        forall|k: int, axis: int|
            0 <= k < 8 && 0 <= axis < 3 ==> {
                let c = #[trigger] cube_corners()[k][axis];
                c == HALF_EXTENT || c == NEG_HALF_EXTENT
            },
        forall|j: int, k: int|
            0 <= j < k < 8 ==> !same_point(#[trigger] cube_corners()[j], #[trigger] cube_corners()[k]),
{
}

/// The indices describe twelve triangles. Each has three different
/// corners of the cube, and triangles `2 * f` and `2 * f + 1` both lie in
/// face `f`: all of their corners share that face's coordinate.
pub proof fn lemma_triangles_cover_faces()
    ensures
        cube_indices().len() == 36,
        forall|i: int| 0 <= i < 36 ==> (#[trigger] cube_indices()[i]) < 8,
        forall|t: int|
            0 <= t < 12 ==> {
                let a = #[trigger] cube_indices()[3 * t];
                let b = cube_indices()[3 * t + 1];
                let c = cube_indices()[3 * t + 2];
                a != b && b != c && a != c
            },
        forall|i: int|
            0 <= i < 36 ==> cube_corners()[(#[trigger] cube_indices()[i]) as int][face_axis(i / 6)]
                == face_side(i / 6),
        forall|f: int, g: int|
            0 <= f < g < 6 ==> face_axis(f) != face_axis(g) || face_side(f) != face_side(g),
{
}

} // verus!
