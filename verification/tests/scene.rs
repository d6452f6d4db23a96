use render_core::box_geometry::BoxGeometry;
use render_core::mesh::Mesh;
use render_core::plane_geometry::PlaneGeometry;
use render_core::scene::Scene;
use render_core::unit_vertex::UnitVertex;

fn cube(tag: u32) -> Mesh<UnitVertex, u32> {
    Mesh::new(BoxGeometry::new(), tag, 0, 1)
}

fn tags(scene: &Scene<UnitVertex, u32>) -> Vec<u32> {
    scene.children.iter().map(|mesh| mesh.position).collect()
}

#[test]
fn new_scene_is_empty() {
    let scene: Scene<UnitVertex, u32> = Scene::new();
    assert_eq!(scene.len(), 0);
    assert!(scene.is_empty());
}

#[test]
fn default_scene_is_empty() {
    let scene: Scene<UnitVertex, u32> = Scene::default();
    assert_eq!(scene.len(), 0);
    assert!(scene.is_empty());
}

#[test]
fn add_keeps_the_order() {
    let mut scene = Scene::new();
    scene.add(cube(7));
    scene.add(cube(3));
    scene.add(Mesh::new(PlaneGeometry::new(), 5, 0, 1));
    assert_eq!(scene.len(), 3);
    assert!(!scene.is_empty());
    assert_eq!(tags(&scene), vec![7, 3, 5]);
    assert_eq!(scene.children[2].geometry.index_count(), 6);
}

#[test]
fn remove_hands_the_mesh_back_and_closes_the_gap() {
    let mut scene = Scene::new();
    for tag in 0..5 {
        scene.add(cube(tag));
    }
    let removed = scene.remove(1);
    assert_eq!(removed.map(|mesh| mesh.position), Some(1));
    assert_eq!(tags(&scene), vec![0, 2, 3, 4]);
    let removed = scene.remove(3);
    assert_eq!(removed.map(|mesh| mesh.position), Some(4));
    assert_eq!(tags(&scene), vec![0, 2, 3]);
}

#[test]
fn remove_beyond_the_end_changes_nothing() {
    let mut scene = Scene::new();
    scene.add(cube(1));
    scene.add(cube(2));
    assert!(scene.remove(2).is_none());
    assert!(scene.remove(usize::MAX).is_none());
    assert_eq!(tags(&scene), vec![1, 2]);
    let mut empty: Scene<UnitVertex, u32> = Scene::new();
    assert!(empty.remove(0).is_none());
    assert!(empty.is_empty());
}

#[test]
fn clear_empties_the_scene() {
    let mut scene = Scene::new();
    for tag in 0..4 {
        scene.add(cube(tag));
    }
    assert!(scene.clear().is_empty());
    assert_eq!(scene.len(), 0);
    assert!(scene.is_empty());
    scene.add(cube(9));
    assert_eq!(tags(&scene), vec![9]);
}

#[test]
fn clear_releases_what_the_meshes_held() {
    let mut scene = Scene::new();
    for tag in 0..3 {
        scene.add(cube(tag));
    }
    scene.children[0].vertex_buffer = Some(10);
    scene.children[0].index_buffer = Some(11);
    scene.children[2].vertex_buffer = Some(20);
    scene.children[2].index_buffer = Some(21);
    scene.children[2].uniform_buffer = Some(22);
    scene.children[2].bind_group = Some(23);
    assert_eq!(scene.clear(), vec![10, 11, 20, 21, 22, 23]);
    assert!(scene.is_empty());
    assert!(scene.clear().is_empty());
}

#[test]
fn removed_mesh_keeps_the_names_of_its_resources() {
    let mut scene = Scene::new();
    scene.add(cube(0));
    scene.add(cube(1));
    scene.children[1].uniform_buffer = Some(5);
    scene.children[1].bind_group = Some(6);
    let removed = scene.remove(1);
    assert_eq!(removed.map(|mesh| mesh.resources()), Some(vec![5, 6]));
    assert!(scene.clear().is_empty());
}
