use render_core::box_geometry::BoxGeometry;
use render_core::mesh::Mesh;
use render_core::plane_geometry::PlaneGeometry;
use render_core::renderer::{Allocation, DrawCall, Renderer, UniformWrite, UNIFORM_SIZE};
use render_core::scene::Scene;
use render_core::unit_vertex::UnitVertex;

fn scene_of(visible: &[bool]) -> Scene<UnitVertex, usize> {
    let mut scene = Scene::new();
    for (tag, &shown) in visible.iter().enumerate() {
        let mut mesh = Mesh::new(BoxGeometry::new(), tag, 0, 1);
        mesh.set_visible(shown);
        scene.add(mesh);
    }
    scene
}

#[test]
fn uniform_block_is_two_matrices() {
    assert_eq!(UNIFORM_SIZE, 2 * 16 * 4);
    assert_eq!(UNIFORM_SIZE, 128);
}

#[test]
fn first_frame_makes_everything_and_draws_the_visible() {
    let mut renderer = Renderer::new(800, 600);
    let mut scene = scene_of(&[true, false, true]);
    let frame = renderer.render(&mut scene);
    assert_eq!(
        frame.created,
        vec![
            Allocation::GeometryBuffers { mesh: 0, vertex_buffer: 0, index_buffer: 1 },
            Allocation::Uniforms { mesh: 0, uniform_buffer: 2, bind_group: 3, size: 128 },
            Allocation::GeometryBuffers { mesh: 1, vertex_buffer: 4, index_buffer: 5 },
            Allocation::Uniforms { mesh: 1, uniform_buffer: 6, bind_group: 7, size: 128 },
            Allocation::GeometryBuffers { mesh: 2, vertex_buffer: 8, index_buffer: 9 },
            Allocation::Uniforms { mesh: 2, uniform_buffer: 10, bind_group: 11, size: 128 },
        ]
    );
    assert_eq!(
        frame.uniform_writes,
        vec![UniformWrite { mesh: 0, uniform_buffer: 2 }, UniformWrite { mesh: 2, uniform_buffer: 10 }]
    );
    assert_eq!(
        frame.draws,
        vec![
            DrawCall { mesh: 0, bind_group: 3, vertex_buffer: 0, index_buffer: 1, index_count: 36 },
            DrawCall { mesh: 2, bind_group: 11, vertex_buffer: 8, index_buffer: 9, index_count: 36 },
        ]
    );
    assert_eq!(renderer.get_device().remaining(), u64::MAX - 12);
}

#[test]
fn hidden_mesh_gets_its_buffers_but_is_not_drawn() {
    let mut renderer = Renderer::new(640, 480);
    let mut scene = scene_of(&[false]);
    let frame = renderer.render(&mut scene);
    assert_eq!(frame.created.len(), 2);
    assert!(frame.uniform_writes.is_empty());
    assert!(frame.draws.is_empty());
    let mesh = &scene.children[0];
    assert_eq!(mesh.vertex_buffer, Some(0));
    assert_eq!(mesh.index_buffer, Some(1));
    assert_eq!(mesh.uniform_buffer, Some(2));
    assert_eq!(mesh.bind_group, Some(3));
    assert!(!mesh.visible);
}

#[test]
fn second_frame_makes_nothing_and_reuses_the_names() {
    let mut renderer = Renderer::new(640, 480);
    let mut scene = scene_of(&[true, false]);
    let first = renderer.render(&mut scene);
    let second = renderer.render(&mut scene);
    assert!(second.created.is_empty());
    assert_eq!(second.uniform_writes, first.uniform_writes);
    assert_eq!(second.draws, first.draws);
    assert_eq!(renderer.get_device().remaining(), u64::MAX - 8);
    assert_eq!(scene.children[1].vertex_buffer, Some(4));
    assert_eq!(scene.children[1].bind_group, Some(7));
}

#[test]
fn mesh_shown_later_is_drawn_with_the_buffers_made_while_hidden() {
    let mut renderer = Renderer::new(640, 480);
    let mut scene = scene_of(&[false]);
    renderer.render(&mut scene);
    scene.children[0].set_visible(true);
    let frame = renderer.render(&mut scene);
    assert!(frame.created.is_empty());
    assert_eq!(frame.uniform_writes, vec![UniformWrite { mesh: 0, uniform_buffer: 2 }]);
    assert_eq!(
        frame.draws,
        vec![DrawCall { mesh: 0, bind_group: 3, vertex_buffer: 0, index_buffer: 1, index_count: 36 }]
    );
}

#[test]
fn mesh_added_between_frames_is_the_only_one_made() {
    let mut renderer = Renderer::new(640, 480);
    let mut scene = scene_of(&[true]);
    renderer.render(&mut scene);
    scene.add(Mesh::new(PlaneGeometry::new(), 9, 0, 1));
    let frame = renderer.render(&mut scene);
    assert_eq!(
        frame.created,
        vec![
            Allocation::GeometryBuffers { mesh: 1, vertex_buffer: 4, index_buffer: 5 },
            Allocation::Uniforms { mesh: 1, uniform_buffer: 6, bind_group: 7, size: 128 },
        ]
    );
    assert_eq!(
        frame.draws,
        vec![
            DrawCall { mesh: 0, bind_group: 3, vertex_buffer: 0, index_buffer: 1, index_count: 36 },
            DrawCall { mesh: 1, bind_group: 7, vertex_buffer: 4, index_buffer: 5, index_count: 6 },
        ]
    );
}

#[test]
fn mesh_with_geometry_buffers_only_gets_uniforms_only() {
    let mut renderer = Renderer::new(640, 480);
    let mut scene = scene_of(&[true]);
    scene.children[0].vertex_buffer = Some(100);
    scene.children[0].index_buffer = Some(101);
    let frame = renderer.render(&mut scene);
    assert_eq!(
        frame.created,
        vec![Allocation::Uniforms { mesh: 0, uniform_buffer: 0, bind_group: 1, size: 128 }]
    );
    assert_eq!(
        frame.draws,
        vec![DrawCall { mesh: 0, bind_group: 1, vertex_buffer: 100, index_buffer: 101, index_count: 36 }]
    );
}

#[test]
fn mesh_with_a_vertex_buffer_but_no_index_buffer_is_not_drawn() {
    let mut renderer = Renderer::new(640, 480);
    let mut scene = scene_of(&[true]);
    scene.children[0].vertex_buffer = Some(100);
    let frame = renderer.render(&mut scene);
    assert_eq!(
        frame.created,
        vec![Allocation::Uniforms { mesh: 0, uniform_buffer: 0, bind_group: 1, size: 128 }]
    );
    assert_eq!(frame.uniform_writes, vec![UniformWrite { mesh: 0, uniform_buffer: 0 }]);
    assert!(frame.draws.is_empty());
    assert_eq!(scene.children[0].index_buffer, None);
}

#[test]
fn empty_scene_makes_an_empty_frame() {
    let mut renderer = Renderer::new(1, 1);
    let mut scene: Scene<UnitVertex, usize> = Scene::new();
    let frame = renderer.render(&mut scene);
    assert!(frame.created.is_empty());
    assert!(frame.uniform_writes.is_empty());
    assert!(frame.draws.is_empty());
    assert_eq!(renderer.get_device().remaining(), u64::MAX);
}

#[test]
fn no_name_is_given_twice() {
    let mut renderer = Renderer::new(640, 480);
    let mut scene = scene_of(&[true, false, true, true]);
    renderer.render(&mut scene);
    scene.add(Mesh::new(BoxGeometry::new(), 4, 0, 1));
    renderer.render(&mut scene);
    let mut names: Vec<u64> = Vec::new();
    for mesh in scene.children.iter() {
        for name in [mesh.vertex_buffer, mesh.index_buffer, mesh.uniform_buffer, mesh.bind_group] {
            match name {
                Some(name) => names.push(name),
                None => panic!("a mesh was left without a resource"),
            }
        }
    }
    let count = names.len();
    names.sort();
    names.dedup();
    assert_eq!(names.len(), count);
    assert_eq!(count, 20);
}

#[test]
fn clearing_after_a_frame_releases_every_name_made() {
    let mut renderer = Renderer::new(640, 480);
    let mut scene = scene_of(&[true, false]);
    renderer.render(&mut scene);
    assert_eq!(scene.clear(), vec![0, 1, 2, 3, 4, 5, 6, 7]);
}

#[test]
fn set_size_takes_a_size_without_zero() {
    let mut renderer = Renderer::new(800, 600);
    assert!(renderer.set_size(1024, 768));
    assert_eq!((renderer.width(), renderer.height()), (1024, 768));
    assert!(renderer.set_size(1, 1));
    assert_eq!((renderer.width(), renderer.height()), (1, 1));
}

#[test]
fn set_size_with_a_zero_changes_nothing() {
    let mut renderer = Renderer::new(800, 600);
    let mut scene = scene_of(&[true]);
    renderer.render(&mut scene);
    assert!(!renderer.set_size(0, 768));
    assert_eq!((renderer.width(), renderer.height()), (800, 600));
    assert!(!renderer.set_size(1024, 0));
    assert_eq!((renderer.width(), renderer.height()), (800, 600));
    assert!(!renderer.set_size(0, 0));
    assert_eq!((renderer.width(), renderer.height()), (800, 600));
    assert_eq!(renderer.get_device().remaining(), u64::MAX - 4);
}

#[test]
fn preferred_format_is_the_first_srgb_one() {
    assert_eq!(Renderer::preferred_format(&vec![false, true, true]), 1);
    assert_eq!(Renderer::preferred_format(&vec![true, false]), 0);
    assert_eq!(Renderer::preferred_format(&vec![false, false, false, true]), 3);
}

#[test]
fn preferred_format_is_the_first_where_none_is_srgb() {
    assert_eq!(Renderer::preferred_format(&vec![false, false, false]), 0);
    assert_eq!(Renderer::preferred_format(&vec![false]), 0);
}
