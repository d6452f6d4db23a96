//! A mesh: a geometry, where it stands, whether it shows, and the GPU
//! resources made for it so far.

use vstd::prelude::*;
use crate::device::{Device, ResourceId};
use crate::geometry::Geometry;

verus! {

/// A geometry placed in the world. Position, rotation (angles about the three
/// axes) and scale are vectors of a type that the application chooses: this
/// library carries them and never looks inside.
///
/// The four resource fields name what the GPU holds for this mesh. Each is
/// empty until the resource is first made and keeps its name from then on.
pub struct Mesh<V, P> {
    pub position: P,
    pub rotation: P,
    pub scale: P,
    pub visible: bool,
    pub geometry: Geometry<V>,
    pub vertex_buffer: Option<ResourceId>,
    pub index_buffer: Option<ResourceId>,
    pub uniform_buffer: Option<ResourceId>,
    pub bind_group: Option<ResourceId>,
}

/// The name in `slot`, if there is one.
pub open spec fn named(slot: Option<ResourceId>) -> Seq<ResourceId> {
    match slot {
        Some(name) => seq![name],
        None => Seq::<ResourceId>::empty(),
    }
}

impl<V, P> Mesh<V, P> {
    /// Whether the mesh has all it takes to be drawn: both geometry buffers
    /// and the bind group.
    pub open spec fn drawable(&self) -> bool {
        self.vertex_buffer is Some && self.index_buffer is Some && self.bind_group is Some
    }

    /// Whether the resources came in the pairs they are made in: an index
    /// buffer with the vertex buffer, a bind group with the uniform buffer.
    pub open spec fn paired(&self) -> bool {
        &&& self.vertex_buffer is Some ==> self.index_buffer is Some
        &&& self.uniform_buffer is Some ==> self.bind_group is Some
    }

    /// The resource field number `k`: vertex buffer, index buffer, uniform
    /// buffer, bind group.
    pub open spec fn slot(&self, k: int) -> Option<ResourceId> {
        if k == 0 {
            self.vertex_buffer
        } else if k == 1 {
            self.index_buffer
        } else if k == 2 {
            self.uniform_buffer
        } else {
            self.bind_group
        }
    }

    /// The names of the resources that the mesh holds, in the order of the
    /// fields.
    pub open spec fn held(&self) -> Seq<ResourceId> {
        named(self.vertex_buffer) + named(self.index_buffer) + named(self.uniform_buffer) + named(
            self.bind_group,
        )
    }

    /// A visible mesh of `geometry` with no GPU resources yet.
    pub fn new(geometry: Geometry<V>, position: P, rotation: P, scale: P) -> (mesh: Mesh<V, P>)
        ensures
            mesh == (Mesh {
                position,
                rotation,
                scale,
                visible: true,
                geometry,
                vertex_buffer: None,
                index_buffer: None,
                uniform_buffer: None,
                bind_group: None,
            }),
    {
        Mesh {
            position,
            rotation,
            scale,
            visible: true,
            geometry,
            vertex_buffer: None,
            index_buffer: None,
            uniform_buffer: None,
            bind_group: None,
        }
    }

    /// Names a new vertex buffer and a new index buffer for this mesh, in that
    /// order, in place of any it had.
    pub fn create_buffers(&mut self, device: &mut Device)
        requires
            old(device).issued() + 2 <= u64::MAX,
        ensures
            final(device).issued() == old(device).issued() + 2,
            *final(self) == (Mesh {
                vertex_buffer: Some(old(device).issued() as u64),
                index_buffer: Some((old(device).issued() + 1) as u64),
                ..*old(self)
            }),
    {
        let vertex_buffer = device.create();
        let index_buffer = device.create();
        self.vertex_buffer = Some(vertex_buffer);
        self.index_buffer = Some(index_buffer);
    }

    /// The names of the resources that the mesh holds: what to release when
    /// the mesh is dropped.
    pub fn resources(&self) -> (names: Vec<ResourceId>)
        ensures
            names@ == self.held(),
    {
        let mut names: Vec<ResourceId> = Vec::new();
        if let Some(name) = self.vertex_buffer {
            names.push(name);
        }
        if let Some(name) = self.index_buffer {
            names.push(name);
        }
        if let Some(name) = self.uniform_buffer {
            names.push(name);
        }
        if let Some(name) = self.bind_group {
            names.push(name);
        }
        assert(names@ =~= self.held());
        names
    }

    /// Shows or hides the mesh.
    pub fn set_visible(&mut self, visible: bool)
        ensures
            *final(self) == (Mesh { visible, ..*old(self) }),
    {
        self.visible = visible;
    }

    /// Hides a visible mesh and shows a hidden one.
    pub fn toggle_visible(&mut self)
        ensures
            *final(self) == (Mesh { visible: !old(self).visible, ..*old(self) }),
    {
        self.visible = !self.visible;
    }
}

} // verus!
