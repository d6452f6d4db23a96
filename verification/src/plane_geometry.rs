//! The plane: one face of four vertices and two triangles, in the plane
//! z = 0, seen from +Z.

use vstd::prelude::*;
use crate::geometry::{Geometry, is_triangle_list};
use crate::unit_vertex::{
    corner_offset, corner_uv, cross, face_corner, faces_out, ints, lemma_quad_faces_out, positive,
    quad_corner, triangle_faces_out, Real3, UnitVertex,
};

verus! {

/// Vertex `i` of the plane: corner `i` of the face about the origin whose
/// right is +X and whose up is +Y. It is white and its normal is +Z.
pub open spec fn plane_vertex(i: int) -> UnitVertex {
    let at = corner_offset(i);
    let p = face_corner((0, 0, 0), (1, 0, 0), (0, 1, 0), at);
    UnitVertex {
        position: (p.0 as i8, p.1 as i8, p.2 as i8),
        normal: (0, 0, 1),
        uv: corner_uv(at),
        color: (1, 1, 1),
    }
}

/// The four vertices of the plane.
pub open spec fn plane_vertices() -> Seq<UnitVertex> {
    Seq::new(4, |i: int| plane_vertex(i))
}

/// The six indices of the plane: the triangles 0 1 2 and 0 2 3.
pub open spec fn plane_indices() -> Seq<u16> {
    Seq::new(6, |k: int| quad_corner(k) as u16)
}

/// The factory of planes.
pub struct PlaneGeometry;

impl PlaneGeometry {
    /// The plane of unit half extents, centred on the origin. Whatever the
    /// half extents it is stretched to, both triangles face +Z.
    pub fn new() -> (geometry: Geometry<UnitVertex>)
        ensures
            geometry@.vertices == plane_vertices(),
            geometry@.indices == plane_indices(),
            geometry@.vertices.len() == 4,
            geometry@.indices.len() == 6,
            is_triangle_list(4, geometry@.indices),
            forall|i: int| 0 <= i < 4 ==> (#[trigger] geometry@.vertices[i]).normal == (0i8, 0i8, 1i8),
            forall|half: Real3|
                positive(half) ==> #[trigger] faces_out(
                    geometry@.vertices,
                    geometry@.indices,
                    half,
                ),
    {
        let vertices: Vec<UnitVertex> = vec![
            UnitVertex { position: (-1, -1, 0), normal: (0, 0, 1), uv: (0, 1), color: (1, 1, 1) },
            UnitVertex { position: (1, -1, 0), normal: (0, 0, 1), uv: (1, 1), color: (1, 1, 1) },
            UnitVertex { position: (1, 1, 0), normal: (0, 0, 1), uv: (1, 0), color: (1, 1, 1) },
            UnitVertex { position: (-1, 1, 0), normal: (0, 0, 1), uv: (0, 0), color: (1, 1, 1) },
        ];
        let indices: Vec<u16> = vec![0, 1, 2, 0, 2, 3];
        proof {
            assert(vertices@.len() == 4);
            assert(vertices@[0] == plane_vertex(0));
            assert(vertices@[1] == plane_vertex(1));
            assert(vertices@[2] == plane_vertex(2));
            assert(vertices@[3] == plane_vertex(3));
            assert(vertices@ =~= plane_vertices());
            assert(indices@ =~= plane_indices());
            assert forall|half: Real3| positive(half) implies #[trigger] faces_out(
                plane_vertices(),
                plane_indices(),
                half,
            ) by {
                lemma_plane_faces_out(half);
            }
        }
        Geometry::from_triangle_list(vertices, indices)
    }
}

/// Stretched to any positive half extents, both triangles of the plane face
/// +Z: seen from there, their corners run counter-clockwise.
pub proof fn lemma_plane_faces_out(half: Real3)
    requires
        positive(half),
    ensures
        faces_out(plane_vertices(), plane_indices(), half),
{
    let vertices = plane_vertices();
    let indices = plane_indices();
    assert(cross((1 as real, 0 as real, 0 as real), (0 as real, 1 as real, 0 as real)) == (
        0 as real,
        0 as real,
        1 as real,
    ));
    lemma_quad_faces_out((0, 0, 0), (0, 0, 1), (1, 0, 0), (0, 1, 0), half);
    assert forall|t: int| 0 <= t < indices.len() / 3 implies #[trigger] triangle_faces_out(
        vertices,
        indices,
        t,
        half,
    ) by {
        let a = vertices[indices[3 * t] as int];
        let b = vertices[indices[3 * t + 1] as int];
        let c = vertices[indices[3 * t + 2] as int];
        assert(ints(a.position) == face_corner((0, 0, 0), (1, 0, 0), (0, 1, 0), corner_offset(0)));
        if t == 0 {
            assert(ints(b.position) == face_corner((0, 0, 0), (1, 0, 0), (0, 1, 0), corner_offset(1)));
            assert(ints(c.position) == face_corner((0, 0, 0), (1, 0, 0), (0, 1, 0), corner_offset(2)));
        } else {
            assert(ints(b.position) == face_corner((0, 0, 0), (1, 0, 0), (0, 1, 0), corner_offset(2)));
            assert(ints(c.position) == face_corner((0, 0, 0), (1, 0, 0), (0, 1, 0), corner_offset(3)));
        }
    }
}

} // verus!
