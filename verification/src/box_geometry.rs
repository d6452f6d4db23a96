//! The box: six faces of four vertices and two triangles each.

use vstd::prelude::*;
use crate::geometry::{Geometry, is_triangle_list};
use crate::unit_vertex::{
    carriers, corner_offset, corner_uv, cross, face_corner, faces_out, ints, lemma_quad_faces_out, normals,
    positive, quad_corner, reals, triangle_faces_out, Int3, Real3, UnitVertex,
};

verus! {

/// The outward normal of face `face` of the box: front, back, top, bottom,
/// right, left.
pub open spec fn box_face_normal(face: int) -> Int3 {
    if face == 0 {
        (0, 0, 1)
    } else if face == 1 {
        (0, 0, -1)
    } else if face == 2 {
        (0, 1, 0)
    } else if face == 3 {
        (0, -1, 0)
    } else if face == 4 {
        (1, 0, 0)
    } else {
        (-1, 0, 0)
    }
}

/// The direction that runs to the right across face `face`, seen from outside.
pub open spec fn box_face_right(face: int) -> Int3 {
    if face == 1 {
        (-1, 0, 0)
    } else if face == 4 {
        (0, 0, -1)
    } else if face == 5 {
        (0, 0, 1)
    } else {
        (1, 0, 0)
    }
}

/// The direction that runs up face `face`, seen from outside. Right, up and
/// normal make a right-handed frame.
pub open spec fn box_face_up(face: int) -> Int3 {
    if face == 2 {
        (0, 0, -1)
    } else if face == 3 {
        (0, 0, 1)
    } else {
        (0, 1, 0)
    }
}

/// The flat colour of face `face`: red, green, blue, yellow, magenta, cyan.
pub open spec fn box_face_color(face: int) -> (u8, u8, u8) {
    if face == 0 {
        (1, 0, 0)
    } else if face == 1 {
        (0, 1, 0)
    } else if face == 2 {
        (0, 0, 1)
    } else if face == 3 {
        (1, 1, 0)
    } else if face == 4 {
        (1, 0, 1)
    } else {
        (0, 1, 1)
    }
}

/// Vertex `i` of the box: corner `i % 4` of face `i / 4`.
pub open spec fn box_vertex(i: int) -> UnitVertex {
    let face = i / 4;
    let n = box_face_normal(face);
    let at = corner_offset(i % 4);
    let p = face_corner(n, box_face_right(face), box_face_up(face), at);
    UnitVertex {
        position: (p.0 as i8, p.1 as i8, p.2 as i8),
        normal: (n.0 as i8, n.1 as i8, n.2 as i8),
        uv: corner_uv(at),
        color: box_face_color(face),
    }
}

/// The 24 vertices of the box.
pub open spec fn box_vertices() -> Seq<UnitVertex> {
    Seq::new(24, |i: int| box_vertex(i))
}

/// Index `k` of the box: each face is the two triangles 0 1 2 and 0 2 3 of its
/// own four corners.
pub open spec fn box_index(k: int) -> u16 {
    (4 * (k / 6) + quad_corner(k)) as u16
}

/// The 36 indices of the box.
pub open spec fn box_indices() -> Seq<u16> {
    Seq::new(36, |k: int| box_index(k))
}

/// The factory of boxes.
pub struct BoxGeometry;

impl BoxGeometry {
    /// The box of unit half extents, centred on the origin. The box of a
    /// given width, height and depth has these vertices, each position
    /// stretched by half the width, half the height and half the depth.
    ///
    /// Each face has four vertices of its own, with the face's normal and the
    /// face's colour, and two triangles that face out of the box at every
    /// positive size.
    pub fn new() -> (geometry: Geometry<UnitVertex>)
        ensures
            geometry@.vertices == box_vertices(),
            geometry@.indices == box_indices(),
            geometry@.vertices.len() == 24,
            geometry@.indices.len() == 36,
            is_triangle_list(24, geometry@.indices),
            forall|i: int, j: int|
                0 <= i < 24 && 0 <= j < 24 ==> ((#[trigger] geometry@.vertices[i]).normal == (
                #[trigger] geometry@.vertices[j]).normal <==> i / 4 == j / 4),
            forall|i: int, j: int|
                0 <= i < 24 && 0 <= j < 24 ==> ((#[trigger] geometry@.vertices[i]).color == (
                #[trigger] geometry@.vertices[j]).color <==> i / 4 == j / 4),
            normals(geometry@.vertices).finite(),
            normals(geometry@.vertices).len() == 6,
            forall|n: (i8, i8, i8)| #[trigger]
                normals(geometry@.vertices).contains(n) ==> carriers(geometry@.vertices, n).finite()
                    && carriers(geometry@.vertices, n).len() == 4,
            forall|half: Real3|
                positive(half) ==> #[trigger] faces_out(
                    geometry@.vertices,
                    geometry@.indices,
                    half,
                ),
    {
        let vertices: Vec<UnitVertex> = vec![
            UnitVertex { position: (-1, -1, 1), normal: (0, 0, 1), uv: (0, 1), color: (1, 0, 0) },
            UnitVertex { position: (1, -1, 1), normal: (0, 0, 1), uv: (1, 1), color: (1, 0, 0) },
            UnitVertex { position: (1, 1, 1), normal: (0, 0, 1), uv: (1, 0), color: (1, 0, 0) },
            UnitVertex { position: (-1, 1, 1), normal: (0, 0, 1), uv: (0, 0), color: (1, 0, 0) },
            UnitVertex { position: (1, -1, -1), normal: (0, 0, -1), uv: (0, 1), color: (0, 1, 0) },
            UnitVertex { position: (-1, -1, -1), normal: (0, 0, -1), uv: (1, 1), color: (0, 1, 0) },
            UnitVertex { position: (-1, 1, -1), normal: (0, 0, -1), uv: (1, 0), color: (0, 1, 0) },
            UnitVertex { position: (1, 1, -1), normal: (0, 0, -1), uv: (0, 0), color: (0, 1, 0) },
            UnitVertex { position: (-1, 1, 1), normal: (0, 1, 0), uv: (0, 1), color: (0, 0, 1) },
            UnitVertex { position: (1, 1, 1), normal: (0, 1, 0), uv: (1, 1), color: (0, 0, 1) },
            UnitVertex { position: (1, 1, -1), normal: (0, 1, 0), uv: (1, 0), color: (0, 0, 1) },
            UnitVertex { position: (-1, 1, -1), normal: (0, 1, 0), uv: (0, 0), color: (0, 0, 1) },
            UnitVertex { position: (-1, -1, -1), normal: (0, -1, 0), uv: (0, 1), color: (1, 1, 0) },
            UnitVertex { position: (1, -1, -1), normal: (0, -1, 0), uv: (1, 1), color: (1, 1, 0) },
            UnitVertex { position: (1, -1, 1), normal: (0, -1, 0), uv: (1, 0), color: (1, 1, 0) },
            UnitVertex { position: (-1, -1, 1), normal: (0, -1, 0), uv: (0, 0), color: (1, 1, 0) },
            UnitVertex { position: (1, -1, 1), normal: (1, 0, 0), uv: (0, 1), color: (1, 0, 1) },
            UnitVertex { position: (1, -1, -1), normal: (1, 0, 0), uv: (1, 1), color: (1, 0, 1) },
            UnitVertex { position: (1, 1, -1), normal: (1, 0, 0), uv: (1, 0), color: (1, 0, 1) },
            UnitVertex { position: (1, 1, 1), normal: (1, 0, 0), uv: (0, 0), color: (1, 0, 1) },
            UnitVertex { position: (-1, -1, -1), normal: (-1, 0, 0), uv: (0, 1), color: (0, 1, 1) },
            UnitVertex { position: (-1, -1, 1), normal: (-1, 0, 0), uv: (1, 1), color: (0, 1, 1) },
            UnitVertex { position: (-1, 1, 1), normal: (-1, 0, 0), uv: (1, 0), color: (0, 1, 1) },
            UnitVertex { position: (-1, 1, -1), normal: (-1, 0, 0), uv: (0, 0), color: (0, 1, 1) },
        ];
        let indices: Vec<u16> = vec![
            0, 1, 2, 0, 2, 3,
            4, 5, 6, 4, 6, 7,
            8, 9, 10, 8, 10, 11,
            12, 13, 14, 12, 14, 15,
            16, 17, 18, 16, 18, 19,
            20, 21, 22, 20, 22, 23,
        ];
        proof {
            assert(vertices@.len() == 24);
            assert(vertices@[0] == box_vertex(0));
            assert(vertices@[1] == box_vertex(1));
            assert(vertices@[2] == box_vertex(2));
            assert(vertices@[3] == box_vertex(3));
            assert(vertices@[4] == box_vertex(4));
            assert(vertices@[5] == box_vertex(5));
            assert(vertices@[6] == box_vertex(6));
            assert(vertices@[7] == box_vertex(7));
            assert(vertices@[8] == box_vertex(8));
            assert(vertices@[9] == box_vertex(9));
            assert(vertices@[10] == box_vertex(10));
            assert(vertices@[11] == box_vertex(11));
            assert(vertices@[12] == box_vertex(12));
            assert(vertices@[13] == box_vertex(13));
            assert(vertices@[14] == box_vertex(14));
            assert(vertices@[15] == box_vertex(15));
            assert(vertices@[16] == box_vertex(16));
            assert(vertices@[17] == box_vertex(17));
            assert(vertices@[18] == box_vertex(18));
            assert(vertices@[19] == box_vertex(19));
            assert(vertices@[20] == box_vertex(20));
            assert(vertices@[21] == box_vertex(21));
            assert(vertices@[22] == box_vertex(22));
            assert(vertices@[23] == box_vertex(23));
        }
        assert(vertices@ =~= box_vertices());
        assert(indices@ =~= box_indices());
        proof {
            lemma_box_indices_in_range();
            lemma_box_faces();
            lemma_box_normals();
            assert forall|half: Real3| positive(half) implies #[trigger] faces_out(
                box_vertices(),
                box_indices(),
                half,
            ) by {
                lemma_box_faces_out(half);
            }
        }
        Geometry::from_triangle_list(vertices, indices)
    }
}

/// On every face of the box right, up and normal make a right-handed frame:
/// right x up is the normal.
pub proof fn lemma_box_frame(face: int)
    requires
        0 <= face < 6,
    ensures
        cross(reals(box_face_right(face)), reals(box_face_up(face))) == reals(box_face_normal(face)),
{
    let zero = 0 as real;
    let one = 1 as real;
    if face == 0 {
        assert(cross((one, zero, zero), (zero, one, zero)) == (zero, zero, one));
    } else if face == 1 {
        assert(cross((-one, zero, zero), (zero, one, zero)) == (zero, zero, -one));
    } else if face == 2 {
        assert(cross((one, zero, zero), (zero, zero, -one)) == (zero, one, zero));
    } else if face == 3 {
        assert(cross((one, zero, zero), (zero, zero, one)) == (zero, -one, zero));
    } else if face == 4 {
        assert(cross((zero, zero, -one), (zero, one, zero)) == (one, zero, zero));
    } else {
        assert(cross((zero, zero, one), (zero, one, zero)) == (-one, zero, zero));
    }
}

/// Every index of the box names one of its 24 vertices, and the indices come
/// in threes.
pub proof fn lemma_box_indices_in_range()
    ensures
        is_triangle_list(24, box_indices()),
{
}

/// Two vertices of the box carry the same normal exactly when they are corners
/// of one face, and the same colour exactly then.
pub proof fn lemma_box_faces()
    ensures
        forall|i: int, j: int|
            0 <= i < 24 && 0 <= j < 24 ==> ((#[trigger] box_vertices()[i]).normal == (
            #[trigger] box_vertices()[j]).normal <==> i / 4 == j / 4),
        forall|i: int, j: int|
            0 <= i < 24 && 0 <= j < 24 ==> ((#[trigger] box_vertices()[i]).color == (
            #[trigger] box_vertices()[j]).color <==> i / 4 == j / 4),
{
}

/// The vertices of the box carry six normals, one to a face, and each normal
/// is carried by the four corners of its face and by no other vertex.
pub proof fn lemma_box_normals()
    ensures
        normals(box_vertices()).finite(),
        normals(box_vertices()).len() == 6,
        forall|n: (i8, i8, i8)| #[trigger]
            normals(box_vertices()).contains(n) ==> carriers(box_vertices(), n).finite() && carriers(
                box_vertices(),
                n,
            ).len() == 4,
{
    let vertices = box_vertices();
    let six: Set<(i8, i8, i8)> = set![
        (0i8, 0i8, 1i8),
        (0i8, 0i8, -1i8),
        (0i8, 1i8, 0i8),
        (0i8, -1i8, 0i8),
        (1i8, 0i8, 0i8),
        (-1i8, 0i8, 0i8),
    ];
    assert forall|i: int| 0 <= i < 24 implies #[trigger] vertices[i].normal == box_vertex(4 * (i / 4)).normal
        && six.contains(vertices[i].normal) by {}
    assert forall|n: (i8, i8, i8)| six.contains(n) implies normals(vertices).contains(n) by {
        let face: int = if n == (0i8, 0i8, 1i8) {
            0
        } else if n == (0i8, 0i8, -1i8) {
            1
        } else if n == (0i8, 1i8, 0i8) {
            2
        } else if n == (0i8, -1i8, 0i8) {
            3
        } else if n == (1i8, 0i8, 0i8) {
            4
        } else {
            5
        };
        assert(vertices[4 * face].normal == n);
    }
    assert(normals(vertices) =~= six);
    assert forall|n: (i8, i8, i8)| #[trigger] normals(vertices).contains(n) implies carriers(vertices, n).finite()
        && carriers(vertices, n).len() == 4 by {
        let i = choose|i: int| 0 <= i < vertices.len() && #[trigger] vertices[i].normal == n;
        let first = 4 * (i / 4);
        let four: Set<int> = set![first, first + 1, first + 2, first + 3];
        assert forall|j: int| 0 <= j < 24 implies (#[trigger] vertices[j].normal == n) == (j / 4 == i / 4) by {}
        assert(carriers(vertices, n) =~= four);
    }
}

/// Stretched to any positive half extents, every triangle of the box faces
/// out of it: seen from outside, its corners run counter-clockwise.
pub proof fn lemma_box_faces_out(half: Real3)
    requires
        positive(half),
    ensures
        faces_out(box_vertices(), box_indices(), half),
{
    let vertices = box_vertices();
    let indices = box_indices();
    assert forall|t: int| 0 <= t < indices.len() / 3 implies #[trigger] triangle_faces_out(
        vertices,
        indices,
        t,
        half,
    ) by {
        let face = t / 2;
        let n = box_face_normal(face);
        let r = box_face_right(face);
        let u = box_face_up(face);
        lemma_box_frame(face);
        lemma_quad_faces_out(n, n, r, u, half);
        let a = vertices[indices[3 * t] as int];
        let b = vertices[indices[3 * t + 1] as int];
        let c = vertices[indices[3 * t + 2] as int];
        assert(ints(a.position) == face_corner(n, r, u, corner_offset(0)));
        if t % 2 == 0 {
            assert(ints(b.position) == face_corner(n, r, u, corner_offset(1)));
            assert(ints(c.position) == face_corner(n, r, u, corner_offset(2)));
        } else {
            assert(ints(b.position) == face_corner(n, r, u, corner_offset(2)));
            assert(ints(c.position) == face_corner(n, r, u, corner_offset(3)));
        }
    }
}

} // verus!
