//! The engine: a scene, its renderer and the camera controller's switches,
//! and the grid of cubes that the engine starts with.

use vstd::prelude::*;
use crate::camera_controls::{CameraControls, ControlsView};
use crate::device::ResourceId;
use crate::mesh::Mesh;
use crate::renderer::{Frame, Renderer, RendererView, draw_calls, prepared, allocations, uniform_writes, names_before};
use crate::scene::{held_by, Scene};

verus! {

/// The cubes along each side of the starting grid.
pub const GRID_SIZE: usize = 10;

/// Where the cube in column `column` and row `row` of the starting grid
/// stands: the grid is centred on the origin in the plane z = 0, with columns
/// two apart along x and rows one apart along y.
pub open spec fn grid_position(column: int, row: int) -> (i32, i32, i32) {
    ((2 * (column - GRID_SIZE / 2)) as i32, (row - GRID_SIZE / 2) as i32, 0)
}

/// The column and the row of cube number `index` of the starting grid: the
/// cubes are added column by column.
pub open spec fn grid_cell(index: int) -> (int, int) {
    (index / (GRID_SIZE as int), index % (GRID_SIZE as int))
}

/// The two numbers that set the phase of the wave at mesh number `index`:
/// twice its place within a group of ten, and the number of its group.
pub fn wave_cell(index: usize) -> (cell: (usize, usize))
    ensures
        cell.0 == 2 * (index % GRID_SIZE),
        cell.1 == index / GRID_SIZE,
{
    (index % GRID_SIZE * 2, index / GRID_SIZE)
}

/// A scene with the renderer that draws it and the switches of the controller
/// that looks at it.
pub struct Engine<V, P> {
    pub renderer: Renderer,
    pub scene: Scene<V, P>,
    pub camera_controls: CameraControls,
}

impl<V, P> Engine<V, P> {
    /// An engine with an empty scene, for a surface of `width` by `height`.
    pub fn new(width: u32, height: u32) -> (engine: Engine<V, P>)
        ensures
            engine.renderer@ == (RendererView { issued: 0, width, height }),
            engine.scene@ == Seq::<Mesh<V, P>>::empty(),
            engine.camera_controls@ == (ControlsView { enabled: true, down: false }),
    {
        Engine { renderer: Renderer::new(width, height), scene: Scene::new(), camera_controls: CameraControls::new() }
    }

    /// Adds the starting grid to the scene: ten by ten cubes, each made by
    /// `make_cube` for its position, column by column.
    pub fn init_scene<F: Fn(i32, i32, i32) -> Mesh<V, P>>(&mut self, make_cube: F)
        requires
            forall|x: i32, y: i32, z: i32| make_cube.requires((x, y, z)),
        ensures
            final(self).renderer == old(self).renderer,
            final(self).camera_controls == old(self).camera_controls,
            final(self).scene@.len() == old(self).scene@.len() + GRID_SIZE * GRID_SIZE,
            final(self).scene@.subrange(0, old(self).scene@.len() as int) == old(self).scene@,
            forall|k: int|
                0 <= k < GRID_SIZE * GRID_SIZE ==> make_cube.ensures(
                    grid_position(grid_cell(k).0, grid_cell(k).1),
                    #[trigger] final(self).scene@[old(self).scene@.len() + k],
                ),
    {
        let ghost before = self.scene@;
        let mut column: usize = 0;
        while column < GRID_SIZE
            invariant
                column <= GRID_SIZE,
                forall|x: i32, y: i32, z: i32| make_cube.requires((x, y, z)),
                self.renderer == old(self).renderer,
                self.camera_controls == old(self).camera_controls,
                self.scene@.len() == before.len() + column * GRID_SIZE,
                self.scene@.subrange(0, before.len() as int) == before,
                forall|k: int|
                    0 <= k < column * GRID_SIZE ==> make_cube.ensures(
                        grid_position(grid_cell(k).0, grid_cell(k).1),
                        #[trigger] self.scene@[before.len() + k],
                    ),
            decreases GRID_SIZE - column,
        {
            let mut row: usize = 0;
            while row < GRID_SIZE
                invariant
                    column < GRID_SIZE,
                    row <= GRID_SIZE,
                    forall|x: i32, y: i32, z: i32| make_cube.requires((x, y, z)),
                    self.renderer == old(self).renderer,
                    self.camera_controls == old(self).camera_controls,
                    self.scene@.len() == before.len() + column * GRID_SIZE + row,
                    self.scene@.subrange(0, before.len() as int) == before,
                    forall|k: int|
                        0 <= k < column * GRID_SIZE + row ==> make_cube.ensures(
                            grid_position(grid_cell(k).0, grid_cell(k).1),
                            #[trigger] self.scene@[before.len() + k],
                        ),
                decreases GRID_SIZE - row,
            {
                let x: i32 = (column as i32 - (GRID_SIZE / 2) as i32) * 2;
                let y: i32 = row as i32 - (GRID_SIZE / 2) as i32;
                let ghost earlier = self.scene@;
                let mesh = make_cube(x, y, 0);
                self.scene.add(mesh);
                proof {
                    let k = column * GRID_SIZE + row;
                    assert(grid_cell(k as int) == (column as int, row as int));
                    assert(self.scene@.subrange(0, before.len() as int) =~= earlier.subrange(
                        0,
                        before.len() as int,
                    ));
                    assert forall|j: int| 0 <= j < k implies make_cube.ensures(
                        grid_position(grid_cell(j).0, grid_cell(j).1),
                        #[trigger] self.scene@[before.len() + j],
                    ) by {
                        assert(self.scene@[before.len() + j] == earlier[before.len() + j]);
                    }
                }
                row += 1;
            }
            column += 1;
        }
    }

    /// Plans a frame of the scene, as the renderer does, where the device has
    /// four names left for every mesh. Where it has not, there is no frame and
    /// nothing changes.
    pub fn render(&mut self) -> (planned: Option<Frame>)
        ensures
            final(self).camera_controls == old(self).camera_controls,
            planned is Some <==> old(self).renderer@.issued + 4 * old(self).scene@.len() <= u64::MAX,
            planned is None ==> final(self).scene@ == old(self).scene@ && final(self).renderer@ == old(
                self,
            ).renderer@,
            planned matches Some(frame) ==> {
                &&& final(self).scene@ == prepared(old(self).scene@, old(self).renderer@.issued)
                &&& final(self).renderer@ == (RendererView {
                    issued: old(self).renderer@.issued + names_before(
                        old(self).scene@,
                        old(self).scene@.len() as int,
                    ),
                    ..old(self).renderer@
                })
                &&& frame.created@ == allocations(
                    old(self).scene@,
                    old(self).scene@.len() as int,
                    old(self).renderer@.issued,
                )
                &&& frame.uniform_writes@ == uniform_writes(final(self).scene@, final(self).scene@.len() as int)
                &&& frame.draws@ == draw_calls(final(self).scene@, final(self).scene@.len() as int)
            },
    {
        let count = self.scene.len();
        let left = self.renderer.get_device().remaining();
        if count as u64 <= left / 4 {
            Some(self.renderer.render(&mut self.scene))
        } else {
            None
        }
    }

    /// Takes a new size for the surface, and says whether to reconfigure. A
    /// size with a zero in it leaves the engine exactly as it was.
    pub fn set_size(&mut self, width: u32, height: u32) -> (reconfigure: bool)
        ensures
            reconfigure <==> width > 0 && height > 0,
            reconfigure ==> final(self).renderer@ == (RendererView { width, height, ..old(self).renderer@ }),
            !reconfigure ==> final(self).renderer@ == old(self).renderer@,
            final(self).scene == old(self).scene,
            final(self).camera_controls == old(self).camera_controls,
    {
        self.renderer.set_size(width, height)
    }

    /// How many meshes the scene holds.
    pub fn mesh_count(&self) -> (count: usize)
        ensures
            count == self.scene@.len(),
    {
        self.scene.len()
    }

    /// Takes every mesh out of the scene, and hands back the names of the
    /// resources that the meshes held.
    pub fn clear_scene(&mut self) -> (released: Vec<ResourceId>)
        ensures
            final(self).scene@ == Seq::<Mesh<V, P>>::empty(),
            released@ == held_by(old(self).scene@, old(self).scene@.len() as int),
            final(self).renderer == old(self).renderer,
            final(self).camera_controls == old(self).camera_controls,
    {
        self.scene.clear()
    }
}

} // verus!
