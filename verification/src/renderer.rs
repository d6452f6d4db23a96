//! The bookkeeping half of a renderer: the size of the surface, the GPU
//! resources that each mesh has, and the plan of a frame. The application
//! carries the plan out against the GPU.

use vstd::prelude::*;
use crate::device::{Device, ResourceId};
use crate::mesh::Mesh;
use crate::scene::{held_by, Scene};

verus! {

/// The bytes of the uniform block of one mesh: the view-projection matrix and
/// the model matrix, each four by four numbers of four bytes.
pub const UNIFORM_SIZE: u64 = 128;

/// Resources to make before the frame is drawn.
#[derive(Clone, Copy, Debug, PartialEq, Eq)]
pub enum Allocation {
    /// Make the vertex and the index buffer of mesh number `mesh` from its
    /// geometry, under these names.
    GeometryBuffers { mesh: usize, vertex_buffer: ResourceId, index_buffer: ResourceId },
    /// Make the uniform buffer of mesh number `mesh`, `size` bytes long, and
    /// the bind group that exposes it, under these names.
    Uniforms { mesh: usize, uniform_buffer: ResourceId, bind_group: ResourceId, size: u64 },
}

/// Write the uniforms of mesh number `mesh` into its uniform buffer.
#[derive(Clone, Copy, Debug, PartialEq, Eq)]
pub struct UniformWrite {
    pub mesh: usize,
    pub uniform_buffer: ResourceId,
}

/// Draw mesh number `mesh`: bind the group and the two buffers, and draw
/// `index_count` indices from the first.
#[derive(Clone, Copy, Debug, PartialEq, Eq)]
pub struct DrawCall {
    pub mesh: usize,
    pub bind_group: ResourceId,
    pub vertex_buffer: ResourceId,
    pub index_buffer: ResourceId,
    pub index_count: usize,
}

/// The plan of one frame, in the order it is carried out: make what is
/// missing, write the uniforms, then draw in one pass.
#[derive(Clone, Debug, PartialEq, Eq)]
pub struct Frame {
    pub created: Vec<Allocation>,
    pub uniform_writes: Vec<UniformWrite>,
    pub draws: Vec<DrawCall>,
}

/// How many resource names `mesh` still needs: two for its geometry buffers
/// while it has no vertex buffer, two for its uniforms while it has no uniform
/// buffer.
pub open spec fn names_needed<V, P>(mesh: Mesh<V, P>) -> nat {
    let geometry: nat = if mesh.vertex_buffer is None {
        2
    } else {
        0
    };
    let uniforms: nat = if mesh.uniform_buffer is None {
        2
    } else {
        0
    };
    geometry + uniforms
}

/// How many names the first `upto` of `meshes` need together.
pub open spec fn names_before<V, P>(meshes: Seq<Mesh<V, P>>, upto: int) -> nat
    decreases upto,
{
    if upto <= 0 {
        0
    } else {
        names_before(meshes, upto - 1) + names_needed(meshes[upto - 1])
    }
}

/// `mesh` with the geometry buffers made that it lacked, at a device that has
/// issued `issued` names.
pub open spec fn with_geometry_buffers<V, P>(mesh: Mesh<V, P>, issued: nat) -> Mesh<V, P> {
    if mesh.vertex_buffer is None {
        Mesh { vertex_buffer: Some(issued as u64), index_buffer: Some((issued + 1) as u64), ..mesh }
    } else {
        mesh
    }
}

/// `mesh` with the uniforms made that it lacked, at a device that has issued
/// `issued` names.
pub open spec fn with_uniforms<V, P>(mesh: Mesh<V, P>, issued: nat) -> Mesh<V, P> {
    if mesh.uniform_buffer is None {
        Mesh { uniform_buffer: Some(issued as u64), bind_group: Some((issued + 1) as u64), ..mesh }
    } else {
        mesh
    }
}

/// `mesh` after a frame at a device that had issued `issued` names when the
/// mesh's turn came: what it had it keeps, what it lacked is made, geometry
/// buffers first.
pub open spec fn equipped<V, P>(mesh: Mesh<V, P>, issued: nat) -> Mesh<V, P> {
    let at_uniforms: nat = if mesh.vertex_buffer is None {
        issued + 2
    } else {
        issued
    };
    with_uniforms(with_geometry_buffers(mesh, issued), at_uniforms)
}

/// What is made for mesh number `index`, at a device that has issued `issued`
/// names.
pub open spec fn allocations_for<V, P>(mesh: Mesh<V, P>, index: int, issued: nat) -> Seq<Allocation> {
    let at_uniforms: nat = if mesh.vertex_buffer is None {
        issued + 2
    } else {
        issued
    };
    let geometry = if mesh.vertex_buffer is None {
        seq![
            Allocation::GeometryBuffers {
                mesh: index as usize,
                vertex_buffer: issued as u64,
                index_buffer: (issued + 1) as u64,
            },
        ]
    } else {
        Seq::<Allocation>::empty()
    };
    let uniforms = if mesh.uniform_buffer is None {
        seq![
            Allocation::Uniforms {
                mesh: index as usize,
                uniform_buffer: at_uniforms as u64,
                bind_group: (at_uniforms + 1) as u64,
                size: UNIFORM_SIZE,
            },
        ]
    } else {
        Seq::<Allocation>::empty()
    };
    geometry + uniforms
}

/// What is made for the first `upto` of `meshes`, in scene order, at a device
/// that had issued `issued` names before the first.
pub open spec fn allocations<V, P>(meshes: Seq<Mesh<V, P>>, upto: int, issued: nat) -> Seq<Allocation>
    decreases upto,
{
    if upto <= 0 {
        Seq::<Allocation>::empty()
    } else {
        allocations(meshes, upto - 1, issued) + allocations_for(
            meshes[upto - 1],
            upto - 1,
            issued + names_before(meshes, upto - 1),
        )
    }
}

/// The scene after a frame: each mesh equipped in its turn.
pub open spec fn prepared<V, P>(meshes: Seq<Mesh<V, P>>, issued: nat) -> Seq<Mesh<V, P>> {
    Seq::new(meshes.len(), |i: int| equipped(meshes[i], issued + names_before(meshes, i)))
}

/// The uniform writes of the first `upto` of `meshes`: one for each visible
/// mesh that has a uniform buffer, in scene order.
pub open spec fn uniform_writes<V, P>(meshes: Seq<Mesh<V, P>>, upto: int) -> Seq<UniformWrite>
    decreases upto,
{
    if upto <= 0 {
        Seq::<UniformWrite>::empty()
    } else {
        let mesh = meshes[upto - 1];
        let before = uniform_writes(meshes, upto - 1);
        if mesh.visible && mesh.uniform_buffer is Some {
            before.push(UniformWrite { mesh: (upto - 1) as usize, uniform_buffer: mesh.uniform_buffer->0 })
        } else {
            before
        }
    }
}

/// The draw of mesh number `index`.
pub open spec fn draw_of<V, P>(mesh: Mesh<V, P>, index: int) -> DrawCall {
    DrawCall {
        mesh: index as usize,
        bind_group: mesh.bind_group->0,
        vertex_buffer: mesh.vertex_buffer->0,
        index_buffer: mesh.index_buffer->0,
        index_count: mesh.geometry@.indices.len() as usize,
    }
}

/// The draws of the first `upto` of `meshes`: one for each visible mesh that
/// has both geometry buffers and a bind group, in scene order.
pub open spec fn draw_calls<V, P>(meshes: Seq<Mesh<V, P>>, upto: int) -> Seq<DrawCall>
    decreases upto,
{
    if upto <= 0 {
        Seq::<DrawCall>::empty()
    } else {
        let mesh = meshes[upto - 1];
        let before = draw_calls(meshes, upto - 1);
        if mesh.visible && mesh.drawable() {
            before.push(draw_of(mesh, upto - 1))
        } else {
            before
        }
    }
}

/// What a renderer is, for contracts.
pub struct RendererView {
    pub issued: nat,
    pub width: u32,
    pub height: u32,
}

/// The renderer's own state: the device that names resources, and the size
/// that the surface and the depth texture are configured to.
pub struct Renderer {
    device: Device,
    width: u32,
    height: u32,
}

impl View for Renderer {
    type V = RendererView;

    closed spec fn view(&self) -> RendererView {
        RendererView { issued: self.device.issued(), width: self.width, height: self.height }
    }
}

impl Renderer {
    /// A renderer for a surface of `width` by `height`, with a fresh device.
    pub fn new(width: u32, height: u32) -> (renderer: Renderer)
        ensures
            renderer@ == (RendererView { issued: 0, width, height }),
    {
        Renderer { device: Device::new(), width, height }
    }

    /// Picks the surface format from those on offer, where `srgb[i]` says
    /// whether format number `i` is an sRGB format: the first sRGB format, or
    /// the first format where none is sRGB.
    pub fn preferred_format(srgb: &Vec<bool>) -> (choice: usize)
        requires
            srgb@.len() > 0,
        ensures
            choice < srgb@.len(),
            forall|i: int| 0 <= i < choice ==> !srgb@[i],
            srgb@[choice as int] || (choice == 0 && forall|i: int| 0 <= i < srgb@.len() ==> !srgb@[i]),
    {
        let mut i: usize = 0;
        while i < srgb.len()
            invariant
                i <= srgb@.len(),
                forall|j: int| 0 <= j < i ==> !srgb@[j],
            decreases srgb@.len() - i,
        {
            if srgb[i] {
                return i;
            }
            i += 1;
        }
        0
    }

    /// Plans a frame of `scene`. Every mesh that lacks geometry buffers or
    /// uniforms gets them named, whether it is visible or not; what a mesh has
    /// it keeps. Then every visible mesh has its uniforms written and is
    /// drawn, in scene order.
    pub fn render<V, P>(&mut self, scene: &mut Scene<V, P>) -> (frame: Frame)
        requires
            old(self)@.issued + 4 * old(scene)@.len() <= u64::MAX,
        ensures
            final(scene)@ == prepared(old(scene)@, old(self)@.issued),
            final(self)@ == (RendererView {
                issued: old(self)@.issued + names_before(old(scene)@, old(scene)@.len() as int),
                ..old(self)@
            }),
            frame.created@ == allocations(old(scene)@, old(scene)@.len() as int, old(self)@.issued),
            frame.uniform_writes@ == uniform_writes(final(scene)@, final(scene)@.len() as int),
            frame.draws@ == draw_calls(final(scene)@, final(scene)@.len() as int),
            forall|i: int|
                0 <= i < final(scene)@.len() ==> (#[trigger] final(scene)@[i]).vertex_buffer is Some
                    && final(scene)@[i].uniform_buffer is Some,
            forall|k: int|
                0 <= k < frame.draws@.len() ==> (#[trigger] frame.draws@[k]).mesh < final(scene)@.len()
                    && final(scene)@[frame.draws@[k].mesh as int].visible,
            names_distinct(old(scene)@, old(self)@.issued) ==> names_distinct(
                final(scene)@,
                final(self)@.issued,
            ),
    {
        let ghost before = scene@;
        let ghost issued = self@.issued;
        let count = scene.children.len();
        let mut created: Vec<Allocation> = Vec::new();
        let mut i: usize = 0;
        while i < count
            invariant
                i <= count,
                count == before.len(),
                scene@.len() == count,
                issued + 4 * count <= u64::MAX,
                names_before(before, i as int) <= 4 * i,
                self.device.issued() == issued + names_before(before, i as int),
                self.width == old(self).width,
                self.height == old(self).height,
                forall|j: int| 0 <= j < i ==> #[trigger] scene@[j] == equipped(before[j], issued + names_before(before, j)),
                forall|j: int| i <= j < count ==> #[trigger] scene@[j] == before[j],
                created@ == allocations(before, i as int, issued),
            decreases count - i,
        {
            let ghost mesh_before = scene@[i as int];
            let ghost at = self.device.issued();
            if scene.children[i].vertex_buffer.is_none() {
                let vertex_buffer = self.device.peek();
                scene.children[i].create_buffers(&mut self.device);
                created.push(
                    Allocation::GeometryBuffers { mesh: i, vertex_buffer, index_buffer: vertex_buffer + 1 },
                );
            }
            if scene.children[i].uniform_buffer.is_none() {
                let uniform_buffer = self.device.create();
                let bind_group = self.device.create();
                scene.children[i].uniform_buffer = Some(uniform_buffer);
                scene.children[i].bind_group = Some(bind_group);
                created.push(
                    Allocation::Uniforms { mesh: i, uniform_buffer, bind_group, size: UNIFORM_SIZE },
                );
            }
            proof {
                assert(scene@[i as int] == equipped(mesh_before, at));
                assert(created@ == allocations(before, i as int, issued) + allocations_for(
                    mesh_before,
                    i as int,
                    at,
                ));
            }
            i += 1;
        }
        proof {
            assert(scene@ =~= prepared(before, issued));
            assert forall|j: int| 0 <= j < count implies (#[trigger] scene@[j]).vertex_buffer is Some
                && scene@[j].uniform_buffer is Some by {
                lemma_equipped(before[j], issued + names_before(before, j));
            }
            lemma_draw_calls(scene@, count as int);
            if names_distinct(before, issued) {
                lemma_frame_keeps_names_distinct(before, issued);
            }
        }

        let mut writes: Vec<UniformWrite> = Vec::new();
        let mut draws: Vec<DrawCall> = Vec::new();
        let mut k: usize = 0;
        while k < count
            invariant
                k <= count,
                scene@.len() == count,
                writes@ == uniform_writes(scene@, k as int),
                draws@ == draw_calls(scene@, k as int),
            decreases count - k,
        {
            let mesh = &scene.children[k];
            if mesh.visible {
                if let Some(uniform_buffer) = mesh.uniform_buffer {
                    writes.push(UniformWrite { mesh: k, uniform_buffer });
                }
                if let (Some(vertex_buffer), Some(index_buffer), Some(bind_group)) = (
                    mesh.vertex_buffer,
                    mesh.index_buffer,
                    mesh.bind_group,
                ) {
                    draws.push(
                        DrawCall {
                            mesh: k,
                            bind_group,
                            vertex_buffer,
                            index_buffer,
                            index_count: mesh.geometry.index_count(),
                        },
                    );
                }
            }
            k += 1;
        }
        Frame { created, uniform_writes: writes, draws }
    }

    /// Takes a new size for the surface and the depth texture, and says
    /// whether to reconfigure. A size with a zero in it is not taken: the
    /// renderer stays exactly as it was.
    pub fn set_size(&mut self, width: u32, height: u32) -> (reconfigure: bool)
        ensures
            reconfigure <==> width > 0 && height > 0,
            reconfigure ==> final(self)@ == (RendererView { width, height, ..old(self)@ }),
            !reconfigure ==> final(self)@ == old(self)@,
    {
        if width > 0 && height > 0 {
            self.width = width;
            self.height = height;
            true
        } else {
            false
        }
    }

    /// The device that names this renderer's resources.
    pub fn get_device(&self) -> (device: &Device)
        ensures
            device.issued() == self@.issued,
    {
        &self.device
    }

    /// The width that the surface is configured to.
    pub fn width(&self) -> (width: u32)
        ensures
            width == self@.width,
    {
        self.width
    }

    /// The height that the surface is configured to.
    pub fn height(&self) -> (height: u32)
        ensures
            height == self@.height,
    {
        self.height
    }
}

/// A frame leaves no mesh without geometry buffers or uniforms, hidden or
/// not, and changes nothing else about it. A mesh whose resources came in
/// pairs can be drawn from then on.
pub proof fn lemma_equipped<V, P>(mesh: Mesh<V, P>, issued: nat)
    ensures
        equipped(mesh, issued).vertex_buffer is Some,
        equipped(mesh, issued).uniform_buffer is Some,
        mesh.vertex_buffer is Some ==> equipped(mesh, issued).vertex_buffer == mesh.vertex_buffer
            && equipped(mesh, issued).index_buffer == mesh.index_buffer,
        mesh.uniform_buffer is Some ==> equipped(mesh, issued).uniform_buffer == mesh.uniform_buffer
            && equipped(mesh, issued).bind_group == mesh.bind_group,
        equipped(mesh, issued).visible == mesh.visible,
        equipped(mesh, issued).geometry == mesh.geometry,
        equipped(mesh, issued).position == mesh.position,
        equipped(mesh, issued).rotation == mesh.rotation,
        equipped(mesh, issued).scale == mesh.scale,
        equipped(mesh, issued).paired() == mesh.paired(),
        mesh.paired() ==> equipped(mesh, issued).drawable(),
        names_needed(equipped(mesh, issued)) == 0,
{
}

/// Meshes that need no names make a frame that creates nothing and leaves
/// them as they are, whatever the device has issued.
pub proof fn lemma_nothing_needed<V, P>(meshes: Seq<Mesh<V, P>>, upto: int, issued: nat)
    requires
        0 <= upto <= meshes.len(),
        forall|i: int| 0 <= i < upto ==> names_needed(#[trigger] meshes[i]) == 0,
    ensures
        names_before(meshes, upto) == 0,
        allocations(meshes, upto, issued) == Seq::<Allocation>::empty(),
        forall|i: int| 0 <= i < upto ==> equipped(#[trigger] meshes[i], issued) == meshes[i],
    decreases upto,
{
    if upto > 0 {
        lemma_nothing_needed(meshes, upto - 1, issued);
        assert(allocations_for(meshes[upto - 1], upto - 1, issued + names_before(meshes, upto - 1))
            =~= Seq::<Allocation>::empty());
        assert(allocations(meshes, upto, issued) =~= Seq::<Allocation>::empty());
    }
}

/// Resources are made once: the frame after a frame creates nothing, issues
/// no name and leaves every mesh as the first frame left it.
pub proof fn lemma_second_frame_makes_nothing<V, P>(meshes: Seq<Mesh<V, P>>, issued: nat, later: nat)
    ensures
        names_before(prepared(meshes, issued), meshes.len() as int) == 0,
        allocations(prepared(meshes, issued), meshes.len() as int, later) == Seq::<Allocation>::empty(),
        prepared(prepared(meshes, issued), later) == prepared(meshes, issued),
{
    let first = prepared(meshes, issued);
    assert forall|i: int| 0 <= i < first.len() implies names_needed(#[trigger] first[i]) == 0 by {
        lemma_equipped(meshes[i], issued + names_before(meshes, i));
    }
    lemma_nothing_needed(first, first.len() as int, later);
    assert forall|i: int| 0 <= i < first.len() implies equipped(first[i], later + names_before(first, i))
        == first[i] by {
        lemma_nothing_needed(first, i, later);
        lemma_equipped(first[i], later + names_before(first, i));
    }
    assert(prepared(first, later) =~= first);
}

/// The draws of a frame are the visible meshes that can be drawn, each once,
/// in scene order: a hidden mesh is never among them.
pub proof fn lemma_draw_calls<V, P>(meshes: Seq<Mesh<V, P>>, upto: int)
    requires
        0 <= upto <= meshes.len(),
        meshes.len() <= usize::MAX,
    ensures
        draw_calls(meshes, upto).len() <= upto,
        forall|k: int|
            0 <= k < draw_calls(meshes, upto).len() ==> {
                let draw = #[trigger] draw_calls(meshes, upto)[k];
                &&& draw.mesh < upto
                &&& meshes[draw.mesh as int].visible
                &&& meshes[draw.mesh as int].drawable()
                &&& draw == draw_of(meshes[draw.mesh as int], draw.mesh as int)
            },
        forall|k: int, l: int|
            0 <= k < l < draw_calls(meshes, upto).len() ==> (#[trigger] draw_calls(meshes, upto)[k]).mesh < (
            #[trigger] draw_calls(meshes, upto)[l]).mesh,
        forall|i: int|
            0 <= i < upto && meshes[i].visible && meshes[i].drawable() ==> exists|k: int|
                0 <= k < draw_calls(meshes, upto).len() && (#[trigger] draw_calls(meshes, upto)[k]).mesh == i,
    decreases upto,
{
    if upto > 0 {
        lemma_draw_calls(meshes, upto - 1);
        let before = draw_calls(meshes, upto - 1);
        let all = draw_calls(meshes, upto);
        let mesh = meshes[upto - 1];
        assert forall|i: int| 0 <= i < upto && meshes[i].visible && meshes[i].drawable() implies exists|k: int|
            0 <= k < all.len() && (#[trigger] all[k]).mesh == i by {
            if i < upto - 1 {
                let k = choose|k: int| 0 <= k < before.len() && (#[trigger] before[k]).mesh == i;
                assert(all[k].mesh == i);
            } else {
                assert(all[all.len() - 1].mesh == i);
            }
        }
    }
}

/// Where every mesh came with its resources in pairs, a frame draws every
/// visible mesh, and writes its uniforms, whatever the mesh held before.
pub proof fn lemma_every_visible_mesh_is_drawn<V, P>(meshes: Seq<Mesh<V, P>>, issued: nat)
    requires
        meshes.len() <= usize::MAX,
        forall|i: int| 0 <= i < meshes.len() ==> (#[trigger] meshes[i]).paired(),
    ensures
        forall|i: int|
            0 <= i < meshes.len() && meshes[i].visible ==> exists|k: int|
                0 <= k < draw_calls(prepared(meshes, issued), meshes.len() as int).len() && (
                #[trigger] draw_calls(prepared(meshes, issued), meshes.len() as int)[k]).mesh == i,
        forall|i: int|
            0 <= i < meshes.len() && meshes[i].visible ==> exists|k: int|
                0 <= k < uniform_writes(prepared(meshes, issued), meshes.len() as int).len() && (
                #[trigger] uniform_writes(prepared(meshes, issued), meshes.len() as int)[k]).mesh == i,
{
    let after = prepared(meshes, issued);
    let count = meshes.len() as int;
    assert forall|i: int| 0 <= i < count implies (#[trigger] after[i]).drawable() && after[i].uniform_buffer is Some
        && after[i].visible == meshes[i].visible by {
        lemma_equipped(meshes[i], issued + names_before(meshes, i));
    }
    lemma_draw_calls(after, count);
    lemma_uniform_writes(after, count);
    assert forall|i: int| 0 <= i < count && meshes[i].visible implies exists|k: int|
        0 <= k < draw_calls(after, count).len() && (#[trigger] draw_calls(after, count)[k]).mesh == i by {
        assert(after[i].visible && after[i].drawable());
    }
    assert forall|i: int| 0 <= i < count && meshes[i].visible implies exists|k: int|
        0 <= k < uniform_writes(after, count).len() && (#[trigger] uniform_writes(after, count)[k]).mesh
            == i by {
        assert(after[i].visible && after[i].uniform_buffer is Some);
    }
}

/// The uniform writes of a frame are the visible meshes that have a uniform
/// buffer, each once, in scene order.
pub proof fn lemma_uniform_writes<V, P>(meshes: Seq<Mesh<V, P>>, upto: int)
    requires
        0 <= upto <= meshes.len(),
        meshes.len() <= usize::MAX,
    ensures
        uniform_writes(meshes, upto).len() <= upto,
        forall|k: int|
            0 <= k < uniform_writes(meshes, upto).len() ==> {
                let write = #[trigger] uniform_writes(meshes, upto)[k];
                &&& write.mesh < upto
                &&& meshes[write.mesh as int].visible
                &&& meshes[write.mesh as int].uniform_buffer == Some(write.uniform_buffer)
            },
        forall|k: int, l: int|
            0 <= k < l < uniform_writes(meshes, upto).len() ==> (#[trigger] uniform_writes(meshes, upto)[k]).mesh
                < (#[trigger] uniform_writes(meshes, upto)[l]).mesh,
        forall|i: int|
            0 <= i < upto && meshes[i].visible && meshes[i].uniform_buffer is Some ==> exists|k: int|
                0 <= k < uniform_writes(meshes, upto).len() && (#[trigger] uniform_writes(meshes, upto)[k]).mesh
                    == i,
    decreases upto,
{
    if upto > 0 {
        lemma_uniform_writes(meshes, upto - 1);
        let before = uniform_writes(meshes, upto - 1);
        let all = uniform_writes(meshes, upto);
        assert forall|i: int|
            0 <= i < upto && meshes[i].visible && meshes[i].uniform_buffer is Some implies exists|k: int|
            0 <= k < all.len() && (#[trigger] all[k]).mesh == i by {
            if i < upto - 1 {
                let k = choose|k: int| 0 <= k < before.len() && (#[trigger] before[k]).mesh == i;
                assert(all[k].mesh == i);
            } else {
                assert(all[all.len() - 1].mesh == i);
            }
        }
    }
}

/// The name that `made` issues first; the second is the one after it.
pub open spec fn first_name(made: Allocation) -> u64 {
    match made {
        Allocation::GeometryBuffers { vertex_buffer, .. } => vertex_buffer,
        Allocation::Uniforms { uniform_buffer, .. } => uniform_buffer,
    }
}

/// The name that `made` issues second.
pub open spec fn second_name(made: Allocation) -> u64 {
    match made {
        Allocation::GeometryBuffers { index_buffer, .. } => index_buffer,
        Allocation::Uniforms { bind_group, .. } => bind_group,
    }
}

/// No name is given twice: what a frame makes takes the names that the device
/// had not issued, two at a time and in rising order.
pub proof fn lemma_names_are_fresh<V, P>(meshes: Seq<Mesh<V, P>>, upto: int, issued: nat)
    requires
        0 <= upto <= meshes.len(),
        issued + 4 * upto <= u64::MAX,
    ensures
        names_before(meshes, upto) == 2 * allocations(meshes, upto, issued).len(),
        names_before(meshes, upto) <= 4 * upto,
        forall|k: int|
            0 <= k < allocations(meshes, upto, issued).len() ==> {
                let made = #[trigger] allocations(meshes, upto, issued)[k];
                &&& first_name(made) == issued + 2 * k
                &&& second_name(made) == issued + 2 * k + 1
            },
    decreases upto,
{
    if upto > 0 {
        lemma_names_are_fresh(meshes, upto - 1, issued);
    }
}

/// Whether the resources of `meshes` are told apart by their names: no name
/// stands in two fields, of one mesh or of two, and every name is one that a
/// device which has issued `issued` names has given out.
pub open spec fn names_distinct<V, P>(meshes: Seq<Mesh<V, P>>, issued: nat) -> bool {
    &&& forall|i: int, k: int|
        0 <= i < meshes.len() && 0 <= k < 4 && (#[trigger] meshes[i].slot(k)) is Some ==> meshes[i].slot(k)->0
            < issued
    &&& forall|i: int, k: int, j: int, l: int|
        0 <= i < meshes.len() && 0 <= j < meshes.len() && 0 <= k < 4 && 0 <= l < 4 && meshes[i].slot(k) is Some
            && #[trigger] meshes[i].slot(k) == #[trigger] meshes[j].slot(l) ==> i == j && k == l
}

/// The names that a frame has issued when the turn of a mesh comes include
/// those of every mesh before it.
proof fn lemma_names_before_rises<V, P>(meshes: Seq<Mesh<V, P>>, i: int, j: int)
    requires
        0 <= i < j <= meshes.len(),
    ensures
        names_before(meshes, i) + names_needed(meshes[i]) <= names_before(meshes, j),
    decreases j - i,
{
    if i + 1 < j {
        lemma_names_before_rises(meshes, i, j - 1);
    }
}

/// A frame keeps the resources told apart by their names: where they were
/// before it, they are after it, with the names that the frame issued.
pub proof fn lemma_frame_keeps_names_distinct<V, P>(meshes: Seq<Mesh<V, P>>, issued: nat)
    requires
        names_distinct(meshes, issued),
        issued + 4 * meshes.len() <= u64::MAX,
    ensures
        names_distinct(prepared(meshes, issued), issued + names_before(meshes, meshes.len() as int)),
{
    let after = prepared(meshes, issued);
    let count = meshes.len() as int;
    let end = issued + names_before(meshes, count);
    lemma_names_are_fresh(meshes, count, issued);
    // Each field after the frame holds the name it held, or a new one from the
    // mesh's own share of the names issued.
    assert forall|i: int, k: int| 0 <= i < count && 0 <= k < 4 implies {
        let at = issued + names_before(meshes, i);
        &&& (#[trigger] after[i].slot(k)) is Some ==> after[i].slot(k)->0 < end
        &&& after[i].slot(k) is Some && after[i].slot(k) != meshes[i].slot(k) ==> at <= after[i].slot(k)->0 < at
            + names_needed(meshes[i])
    } by {
        lemma_names_before_rises(meshes, i, count);
        lemma_names_are_fresh(meshes, i, issued);
    }
    assert forall|i: int, k: int, j: int, l: int|
        0 <= i < count && 0 <= j < count && 0 <= k < 4 && 0 <= l < 4 && after[i].slot(k) is Some
            && #[trigger] after[i].slot(k) == #[trigger] after[j].slot(l) implies i == j && k == l by {
        if i < j {
            lemma_names_before_rises(meshes, i, j);
        }
        if j < i {
            lemma_names_before_rises(meshes, j, i);
        }
        lemma_names_before_rises(meshes, i, count);
        lemma_names_before_rises(meshes, j, count);
        assert(meshes[i].slot(k) is Some ==> meshes[i].slot(k)->0 < issued);
        assert(meshes[j].slot(l) is Some ==> meshes[j].slot(l)->0 < issued);
    }
}

/// What a frame makes for meshes that held nothing is what clearing the scene
/// releases: four names a mesh, in the order they were issued.
pub proof fn lemma_made_is_released<V, P>(meshes: Seq<Mesh<V, P>>, upto: int, issued: nat)
    requires
        0 <= upto <= meshes.len(),
        issued + 4 * meshes.len() <= u64::MAX,
        forall|i: int| 0 <= i < meshes.len() ==> (#[trigger] meshes[i]).held() == Seq::<ResourceId>::empty(),
    ensures
        names_before(meshes, upto) == 4 * upto,
        held_by(prepared(meshes, issued), upto) == Seq::new((4 * upto) as nat, |k: int| (issued + k) as u64),
    decreases upto,
{
    if upto > 0 {
        lemma_made_is_released(meshes, upto - 1, issued);
        let mesh = meshes[upto - 1];
        assert(mesh.held().len() == 0);
        assert(mesh.vertex_buffer is None && mesh.index_buffer is None && mesh.uniform_buffer is None
            && mesh.bind_group is None) by {
            if mesh.vertex_buffer is Some || mesh.index_buffer is Some || mesh.uniform_buffer is Some
                || mesh.bind_group is Some {
                assert(mesh.held().len() > 0);
            }
        }
        let at = issued + 4 * (upto - 1);
        assert(prepared(meshes, issued)[upto - 1].held() =~= seq![
            at as u64,
            (at + 1) as u64,
            (at + 2) as u64,
            (at + 3) as u64,
        ]);
        assert(held_by(prepared(meshes, issued), upto) =~= Seq::new(
            (4 * upto) as nat,
            |k: int| (issued + k) as u64,
        ));
    } else {
        assert(held_by(prepared(meshes, issued), upto) =~= Seq::new(
            (4 * upto) as nat,
            |k: int| (issued + k) as u64,
        ));
    }
}

} // verus!
