use render_core::box_geometry::BoxGeometry;
use render_core::geometry::{Geometry, GeometryError};
use render_core::plane_geometry::PlaneGeometry;
use render_core::unit_vertex::UnitVertex;

fn vertex(position: (i8, i8, i8), normal: (i8, i8, i8), uv: (u8, u8), color: (u8, u8, u8)) -> UnitVertex {
    UnitVertex { position, normal, uv, color }
}

/// The facing of a triangle of `geometry`, stretched to the given half
/// extents, dotted with the normal of its first corner.
fn outwardness(geometry: &Geometry<UnitVertex>, triangle: usize, half: (f64, f64, f64)) -> f64 {
    let corner = |k: usize| {
        let v = geometry.vertices()[geometry.indices()[3 * triangle + k] as usize];
        (v.position.0 as f64 * half.0, v.position.1 as f64 * half.1, v.position.2 as f64 * half.2)
    };
    let (a, b, c) = (corner(0), corner(1), corner(2));
    let d = (b.0 - a.0, b.1 - a.1, b.2 - a.2);
    let e = (c.0 - a.0, c.1 - a.1, c.2 - a.2);
    let facing = (d.1 * e.2 - d.2 * e.1, d.2 * e.0 - d.0 * e.2, d.0 * e.1 - d.1 * e.0);
    let n = geometry.vertices()[geometry.indices()[3 * triangle] as usize].normal;
    facing.0 * n.0 as f64 + facing.1 * n.1 as f64 + facing.2 * n.2 as f64
}

#[test]
fn box_counts() {
    let geometry = BoxGeometry::new();
    assert_eq!(geometry.vertices().len(), 24);
    assert_eq!(geometry.indices().len(), 36);
    assert_eq!(geometry.index_count(), 36);
    assert_eq!(geometry.triangle_count(), 12);
    assert!(geometry.indices().iter().all(|&i| i < 24));
}

#[test]
fn box_has_six_normals_of_four_vertices_each() {
    let geometry = BoxGeometry::new();
    let mut seen: Vec<((i8, i8, i8), usize)> = Vec::new();
    for v in geometry.vertices().iter() {
        match seen.iter_mut().find(|(n, _)| *n == v.normal) {
            Some(entry) => entry.1 += 1,
            None => seen.push((v.normal, 1)),
        }
    }
    assert_eq!(seen.len(), 6);
    assert!(seen.iter().all(|&(_, count)| count == 4));
    let mut normals: Vec<(i8, i8, i8)> = seen.iter().map(|&(n, _)| n).collect();
    normals.sort();
    assert_eq!(normals, vec![(-1, 0, 0), (0, -1, 0), (0, 0, -1), (0, 0, 1), (0, 1, 0), (1, 0, 0)]);
}

#[test]
fn box_vertices_are_the_corners_of_each_face() {
    let geometry = BoxGeometry::new();
    let expected = vec![
        vertex((-1, -1, 1), (0, 0, 1), (0, 1), (1, 0, 0)),
        vertex((1, -1, 1), (0, 0, 1), (1, 1), (1, 0, 0)),
        vertex((1, 1, 1), (0, 0, 1), (1, 0), (1, 0, 0)),
        vertex((-1, 1, 1), (0, 0, 1), (0, 0), (1, 0, 0)),
        vertex((1, -1, -1), (0, 0, -1), (0, 1), (0, 1, 0)),
        vertex((-1, -1, -1), (0, 0, -1), (1, 1), (0, 1, 0)),
        vertex((-1, 1, -1), (0, 0, -1), (1, 0), (0, 1, 0)),
        vertex((1, 1, -1), (0, 0, -1), (0, 0), (0, 1, 0)),
        vertex((-1, 1, 1), (0, 1, 0), (0, 1), (0, 0, 1)),
        vertex((1, 1, 1), (0, 1, 0), (1, 1), (0, 0, 1)),
        vertex((1, 1, -1), (0, 1, 0), (1, 0), (0, 0, 1)),
        vertex((-1, 1, -1), (0, 1, 0), (0, 0), (0, 0, 1)),
        vertex((-1, -1, -1), (0, -1, 0), (0, 1), (1, 1, 0)),
        vertex((1, -1, -1), (0, -1, 0), (1, 1), (1, 1, 0)),
        vertex((1, -1, 1), (0, -1, 0), (1, 0), (1, 1, 0)),
        vertex((-1, -1, 1), (0, -1, 0), (0, 0), (1, 1, 0)),
        vertex((1, -1, 1), (1, 0, 0), (0, 1), (1, 0, 1)),
        vertex((1, -1, -1), (1, 0, 0), (1, 1), (1, 0, 1)),
        vertex((1, 1, -1), (1, 0, 0), (1, 0), (1, 0, 1)),
        vertex((1, 1, 1), (1, 0, 0), (0, 0), (1, 0, 1)),
        vertex((-1, -1, -1), (-1, 0, 0), (0, 1), (0, 1, 1)),
        vertex((-1, -1, 1), (-1, 0, 0), (1, 1), (0, 1, 1)),
        vertex((-1, 1, 1), (-1, 0, 0), (1, 0), (0, 1, 1)),
        vertex((-1, 1, -1), (-1, 0, 0), (0, 0), (0, 1, 1)),
    ];
    assert_eq!(geometry.vertices(), &expected);
}

#[test]
fn box_indices_are_two_triangles_a_face() {
    let geometry = BoxGeometry::new();
    let expected: Vec<u16> = vec![
        0, 1, 2, 0, 2, 3, 4, 5, 6, 4, 6, 7, 8, 9, 10, 8, 10, 11, 12, 13, 14, 12, 14, 15, 16, 17, 18, 16, 18,
        19, 20, 21, 22, 20, 22, 23,
    ];
    assert_eq!(geometry.indices(), &expected);
}

#[test]
fn box_faces_have_distinct_colors() {
    let geometry = BoxGeometry::new();
    let colors: Vec<(u8, u8, u8)> = (0..6).map(|face| geometry.vertices()[4 * face].color).collect();
    for face in 0..6 {
        for corner in 0..4 {
            assert_eq!(geometry.vertices()[4 * face + corner].color, colors[face]);
        }
        for other in 0..face {
            assert_ne!(colors[face], colors[other]);
        }
    }
}

#[test]
fn box_triangles_face_outward_at_any_size() {
    let geometry = BoxGeometry::new();
    for half in [(0.5, 0.5, 0.5), (1.0, 2.0, 3.0), (10.0, 0.25, 4.0)] {
        for triangle in 0..12 {
            assert!(outwardness(&geometry, triangle, half) > 0.0);
        }
    }
}

#[test]
fn box_of_width_two_height_four_depth_six() {
    let geometry = BoxGeometry::new();
    let half = (1.0f32, 2.0f32, 3.0f32);
    let first = geometry.vertices()[0];
    let position = [
        first.position.0 as f32 * half.0,
        first.position.1 as f32 * half.1,
        first.position.2 as f32 * half.2,
    ];
    assert_eq!(position, [-1.0, -2.0, 3.0]);
    let last = geometry.vertices()[23];
    let position =
        [last.position.0 as f32 * half.0, last.position.1 as f32 * half.1, last.position.2 as f32 * half.2];
    assert_eq!(position, [-1.0, 2.0, -3.0]);
}

#[test]
fn plane_counts() {
    let geometry = PlaneGeometry::new();
    assert_eq!(geometry.vertices().len(), 4);
    assert_eq!(geometry.indices().len(), 6);
    assert_eq!(geometry.triangle_count(), 2);
    assert!(geometry.indices().iter().all(|&i| i < 4));
}

#[test]
fn plane_vertices_and_indices() {
    let geometry = PlaneGeometry::new();
    let expected = vec![
        vertex((-1, -1, 0), (0, 0, 1), (0, 1), (1, 1, 1)),
        vertex((1, -1, 0), (0, 0, 1), (1, 1), (1, 1, 1)),
        vertex((1, 1, 0), (0, 0, 1), (1, 0), (1, 1, 1)),
        vertex((-1, 1, 0), (0, 0, 1), (0, 0), (1, 1, 1)),
    ];
    assert_eq!(geometry.vertices(), &expected);
    let indices: Vec<u16> = vec![0, 1, 2, 0, 2, 3];
    assert_eq!(geometry.indices(), &indices);
}

#[test]
fn plane_faces_plus_z() {
    let geometry = PlaneGeometry::new();
    for triangle in 0..2 {
        assert!(outwardness(&geometry, triangle, (3.0, 0.5, 1.0)) > 0.0);
    }
    assert!(geometry.vertices().iter().all(|v| v.normal == (0, 0, 1) && v.position.2 == 0));
}

#[test]
fn geometry_of_whole_triangles_in_range_is_accepted() {
    let made = Geometry::new(vec![[0.0f32, 0.0, 0.0], [1.0, 0.0, 0.0], [0.0, 1.0, 0.0]], vec![0, 1, 2, 2, 1, 0]);
    let geometry = match made {
        Ok(geometry) => geometry,
        Err(error) => panic!("rejected: {:?}", error),
    };
    assert_eq!(geometry.vertices(), &vec![[0.0f32, 0.0, 0.0], [1.0, 0.0, 0.0], [0.0, 1.0, 0.0]]);
    assert_eq!(geometry.indices(), &vec![0u16, 1, 2, 2, 1, 0]);
    assert_eq!(geometry.triangle_count(), 2);
}

#[test]
fn geometry_without_indices_is_accepted() {
    let made = Geometry::<u8>::new(vec![], vec![]);
    assert!(matches!(made, Ok(_)));
    if let Ok(geometry) = made {
        assert_eq!(geometry.triangle_count(), 0);
        assert_eq!(geometry.index_count(), 0);
        assert_eq!(geometry.index_bytes(), Vec::<u8>::new());
    }
}

#[test]
fn geometry_with_a_broken_triangle_is_rejected() {
    let made = Geometry::new(vec!['a', 'b', 'c'], vec![0, 1, 2, 0]);
    assert_eq!(made.err(), Some(GeometryError::IncompleteTriangle { index_count: 4 }));
    let made = Geometry::new(vec!['a', 'b', 'c'], vec![0, 1]);
    assert_eq!(made.err(), Some(GeometryError::IncompleteTriangle { index_count: 2 }));
}

#[test]
fn geometry_with_an_index_out_of_range_is_rejected() {
    let made = Geometry::new(vec!['a', 'b', 'c'], vec![0, 1, 2, 0, 3, 7]);
    assert_eq!(made.err(), Some(GeometryError::IndexOutOfRange { position: 4, index: 3, vertex_count: 3 }));
    let made = Geometry::<char>::new(vec![], vec![0, 0, 0]);
    assert_eq!(made.err(), Some(GeometryError::IndexOutOfRange { position: 0, index: 0, vertex_count: 0 }));
}

#[test]
fn geometry_broken_triangle_is_reported_before_a_bad_index() {
    let made = Geometry::new(vec!['a'], vec![9, 9]);
    assert_eq!(made.err(), Some(GeometryError::IncompleteTriangle { index_count: 2 }));
}

#[test]
fn geometry_index_equal_to_the_vertex_count_is_out_of_range() {
    let made = Geometry::new(vec!['a', 'b', 'c'], vec![0, 1, 3]);
    assert_eq!(made.err(), Some(GeometryError::IndexOutOfRange { position: 2, index: 3, vertex_count: 3 }));
    let made = Geometry::new(vec!['a', 'b', 'c'], vec![0, 1, 2]);
    assert!(made.is_ok());
}

#[test]
fn index_bytes_hold_each_index_in_machine_order() {
    let geometry = BoxGeometry::new();
    let bytes = geometry.index_bytes();
    assert_eq!(bytes.len(), 72);
    let decoded: Vec<u16> = bytes.chunks(2).map(|pair| u16::from_ne_bytes([pair[0], pair[1]])).collect();
    assert_eq!(&decoded, geometry.indices());
}

#[test]
fn index_bytes_of_a_large_index() {
    let vertices: Vec<u8> = vec![0; 0x0203];
    let made = Geometry::new(vertices, vec![0x0102, 0x0001, 0x0202]);
    let geometry = match made {
        Ok(geometry) => geometry,
        Err(error) => panic!("rejected: {:?}", error),
    };
    let bytes = geometry.index_bytes();
    let mut expected: Vec<u8> = Vec::new();
    for index in [0x0102u16, 0x0001, 0x0202] {
        expected.extend_from_slice(&index.to_ne_bytes());
    }
    assert_eq!(bytes, expected);
    assert_ne!(bytes[0], bytes[1]);
}
