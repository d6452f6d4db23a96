//! The scene: the meshes to draw, in the order they are drawn.

use vstd::prelude::*;
use crate::device::ResourceId;
use crate::mesh::Mesh;

verus! {

/// An ordered collection of meshes. The order is the draw order, and nothing
/// here changes it but `remove`, which closes the gap.
pub struct Scene<V, P> {
    pub children: Vec<Mesh<V, P>>,
}

impl<V, P> View for Scene<V, P> {
    type V = Seq<Mesh<V, P>>;

    open spec fn view(&self) -> Seq<Mesh<V, P>> {
        self.children@
    }
}

/// The names of the resources that the first `upto` of `meshes` hold, mesh by
/// mesh.
pub open spec fn held_by<V, P>(meshes: Seq<Mesh<V, P>>, upto: int) -> Seq<ResourceId>
    decreases upto,
{
    if upto <= 0 {
        Seq::<ResourceId>::empty()
    } else {
        held_by(meshes, upto - 1) + meshes[upto - 1].held()
    }
}

impl<V, P> Scene<V, P> {
    /// The empty scene.
    pub fn new() -> (scene: Scene<V, P>)
        ensures
            scene@ == Seq::<Mesh<V, P>>::empty(),
    {
        Scene { children: Vec::new() }
    }

    /// Adds `mesh` behind the others.
    pub fn add(&mut self, mesh: Mesh<V, P>)
        ensures
            final(self)@ == old(self)@.push(mesh),
    {
        self.children.push(mesh);
    }

    /// Takes the mesh at `index` out of the scene and hands it back, with the
    /// names of the resources it holds; the meshes behind it move up by one.
    /// Where there is no such mesh the scene stays as it is.
    pub fn remove(&mut self, index: usize) -> (removed: Option<Mesh<V, P>>)
        ensures
            index < old(self)@.len() ==> removed == Some(old(self)@[index as int]) && final(self)@ == old(
                self,
            )@.remove(index as int),
            index >= old(self)@.len() ==> removed is None && final(self)@ == old(self)@,
    {
        if index < self.children.len() {
            Some(self.children.remove(index))
        } else {
            None
        }
    }

    /// Takes every mesh out of the scene, and hands back the names of the
    /// resources that the meshes held, which are released with them.
    pub fn clear(&mut self) -> (released: Vec<ResourceId>)
        ensures
            final(self)@ == Seq::<Mesh<V, P>>::empty(),
            released@ == held_by(old(self)@, old(self)@.len() as int),
    {
        let mut released: Vec<ResourceId> = Vec::new();
        let count = self.children.len();
        let mut i: usize = 0;
        while i < count
            invariant
                i <= count,
                count == self@.len(),
                self@ == old(self)@,
                released@ == held_by(self@, i as int),
            decreases count - i,
        {
            let mut names = self.children[i].resources();
            released.append(&mut names);
            i += 1;
        }
        self.children.clear();
        released
    }

    /// How many meshes the scene holds.
    pub fn len(&self) -> (count: usize)
        ensures
            count == self@.len(),
    {
        self.children.len()
    }

    /// Whether the scene holds no mesh.
    pub fn is_empty(&self) -> (empty: bool)
        ensures
            empty <==> self@.len() == 0,
    {
        self.children.is_empty()
    }
}

impl<V, P> Default for Scene<V, P> {
    fn default() -> (scene: Scene<V, P>)
        ensures
            scene@ == Seq::<Mesh<V, P>>::empty(),
    {
        Scene::new()
    }
}

} // verus!
