use render_core::box_geometry::BoxGeometry;
use render_core::engine::{wave_cell, Engine, GRID_SIZE};
use render_core::mesh::Mesh;
use render_core::unit_vertex::UnitVertex;

fn cube(x: i32, y: i32, z: i32) -> Mesh<UnitVertex, [f32; 3]> {
    Mesh::new(BoxGeometry::new(), [x as f32, y as f32, z as f32], [0.0, 0.0, 0.0], [1.0, 1.0, 1.0])
}

#[test]
fn new_engine_has_no_meshes() {
    let engine: Engine<UnitVertex, [f32; 3]> = Engine::new(800, 600);
    assert_eq!(engine.mesh_count(), 0);
    assert_eq!((engine.renderer.width(), engine.renderer.height()), (800, 600));
    assert!(engine.camera_controls.enabled());
}

#[test]
fn grid_of_cubes_then_clear() {
    let mut engine = Engine::new(800, 600);
    engine.init_scene(cube);
    assert_eq!(engine.mesh_count(), 100);
    assert!(engine.clear_scene().is_empty());
    assert_eq!(engine.mesh_count(), 0);
}

#[test]
fn grid_is_spaced_two_one_zero_about_the_origin() {
    let mut engine = Engine::new(800, 600);
    engine.init_scene(cube);
    assert_eq!(GRID_SIZE, 10);
    for column in 0..10 {
        for row in 0..10 {
            let mesh = &engine.scene.children[column * 10 + row];
            let expected = [(column as f32 - 5.0) * 2.0, row as f32 - 5.0, 0.0];
            assert_eq!(mesh.position, expected);
            assert!(mesh.visible);
            assert_eq!(mesh.geometry.index_count(), 36);
        }
    }
    assert_eq!(engine.scene.children[0].position, [-10.0, -5.0, 0.0]);
    assert_eq!(engine.scene.children[1].position, [-10.0, -4.0, 0.0]);
    assert_eq!(engine.scene.children[10].position, [-8.0, -5.0, 0.0]);
    assert_eq!(engine.scene.children[99].position, [8.0, 4.0, 0.0]);
}

#[test]
fn grid_is_added_behind_what_the_scene_holds() {
    let mut engine = Engine::new(800, 600);
    engine.scene.add(cube(77, 0, 0));
    engine.init_scene(cube);
    assert_eq!(engine.mesh_count(), 101);
    assert_eq!(engine.scene.children[0].position, [77.0, 0.0, 0.0]);
    assert_eq!(engine.scene.children[1].position, [-10.0, -5.0, 0.0]);
}

#[test]
fn frame_of_the_grid_draws_every_cube() {
    let mut engine = Engine::new(800, 600);
    engine.init_scene(cube);
    engine.scene.children[42].set_visible(false);
    let frame = match engine.render() {
        Some(frame) => frame,
        None => panic!("a fresh device has names for a hundred cubes"),
    };
    assert_eq!(frame.created.len(), 200);
    assert_eq!(frame.draws.len(), 99);
    assert!(frame.draws.iter().all(|draw| draw.mesh != 42 && draw.index_count == 36));
    assert_eq!(engine.scene.children[42].vertex_buffer, Some(168));
    let again = match engine.render() {
        Some(frame) => frame,
        None => panic!("a second frame needs no names"),
    };
    assert!(again.created.is_empty());
    assert_eq!(again.draws, frame.draws);
    assert_eq!(again.uniform_writes, frame.uniform_writes);
}

#[test]
fn clearing_the_grid_after_a_frame_releases_four_names_a_cube() {
    let mut engine = Engine::new(800, 600);
    engine.init_scene(cube);
    assert!(engine.render().is_some());
    let released = engine.clear_scene();
    let expected: Vec<u64> = (0..400).collect();
    assert_eq!(released, expected);
    assert_eq!(engine.mesh_count(), 0);
}

#[test]
fn engine_resize() {
    let mut engine: Engine<UnitVertex, [f32; 3]> = Engine::new(800, 600);
    assert!(engine.set_size(1920, 1080));
    assert_eq!((engine.renderer.width(), engine.renderer.height()), (1920, 1080));
    assert!(!engine.set_size(0, 1080));
    assert!(!engine.set_size(1920, 0));
    assert_eq!((engine.renderer.width(), engine.renderer.height()), (1920, 1080));
}

#[test]
fn wave_cells() {
    assert_eq!(wave_cell(0), (0, 0));
    assert_eq!(wave_cell(7), (14, 0));
    assert_eq!(wave_cell(10), (0, 1));
    assert_eq!(wave_cell(99), (18, 9));
    assert_eq!(wave_cell(123), (6, 12));
}
