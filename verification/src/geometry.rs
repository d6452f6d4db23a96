//! Triangle-list geometry: vertices of any type, and indices into them.

use vstd::prelude::*;

verus! {

/// Why a vertex list and an index list do not make a geometry.
#[derive(Clone, Copy, Debug, PartialEq, Eq)]
pub enum GeometryError {
    /// The number of indices is not a multiple of three.
    IncompleteTriangle { index_count: usize },
    /// The index at `position` names a vertex that does not exist.
    IndexOutOfRange { position: usize, index: u16, vertex_count: usize },
}

/// What a geometry holds, as sequences.
pub struct GeometryView<V> {
    pub vertices: Seq<V>,
    pub indices: Seq<u16>,
}

/// Whether `indices` describes whole triangles over `vertex_count` vertices.
pub open spec fn is_triangle_list(vertex_count: nat, indices: Seq<u16>) -> bool {
    &&& indices.len() % 3 == 0
    &&& forall|i: int| 0 <= i < indices.len() ==> (#[trigger] indices[i] as nat) < vertex_count
}

/// Whether `error` is the fault of `indices` over `vertex_count` vertices. Each
/// pair has at most one fault: a broken triangle count comes before a bad
/// index, and of the bad indices the first is named.
pub open spec fn is_fault_of(error: GeometryError, vertex_count: nat, indices: Seq<u16>) -> bool {
    match error {
        GeometryError::IncompleteTriangle { index_count } => {
            &&& indices.len() % 3 != 0
            &&& index_count == indices.len()
        },
        GeometryError::IndexOutOfRange { position, index, vertex_count: limit } => {
            &&& indices.len() % 3 == 0
            &&& position < indices.len()
            &&& index == indices[position as int]
            &&& index as nat >= vertex_count
            &&& limit == vertex_count
            &&& forall|i: int| 0 <= i < position ==> (#[trigger] indices[i] as nat) < vertex_count
        },
    }
}

/// Whether `bytes` holds `indices` as they lie in memory: two bytes to an
/// index, and in every index the low byte first, or in every index the high
/// byte first.
pub open spec fn in_memory_order(indices: Seq<u16>, bytes: Seq<u8>) -> bool {
    &&& bytes.len() == 2 * indices.len()
    &&& {
        ||| forall|i: int|
            0 <= i < indices.len() ==> #[trigger] indices[i] == bytes[2 * i] + 256 * bytes[2 * i + 1]
        ||| forall|i: int|
            0 <= i < indices.len() ==> #[trigger] indices[i] == 256 * bytes[2 * i] + bytes[2 * i + 1]
    }
}

/// Calls `bytemuck::cast_slice` to read `indices` as bytes, and copies them.
/// The cast hands out the memory of the slice unchanged, so the bytes number
/// twice the indices and hold each index in the byte order of the machine.
/// The cast is from two-byte to one-byte items, which never fails.
#[verifier::external_body]
fn cast_indices(indices: &Vec<u16>) -> (bytes: Vec<u8>)
    ensures
        in_memory_order(indices@, bytes@),
{
    bytemuck::cast_slice::<u16, u8>(indices.as_slice()).to_vec()
}

/// A triangle list. Once made it does not change: every index names a vertex,
/// and the indices come in threes.
pub struct Geometry<V> {
    vertices: Vec<V>,
    indices: Vec<u16>,
}

impl<V> View for Geometry<V> {
    type V = GeometryView<V>;

    closed spec fn view(&self) -> GeometryView<V> {
        GeometryView { vertices: self.vertices@, indices: self.indices@ }
    }
}

impl<V> Geometry<V> {
    #[verifier::type_invariant]
    spec fn well_formed(&self) -> bool {
        is_triangle_list(self.vertices@.len(), self.indices@)
    }

    /// Checks `indices` against `vertices` and makes the geometry, or says why
    /// not.
    pub fn new(vertices: Vec<V>, indices: Vec<u16>) -> (made: Result<Geometry<V>, GeometryError>)
        ensures
            match made {
                Ok(geometry) => {
                    &&& is_triangle_list(vertices@.len(), indices@)
                    &&& geometry@.vertices == vertices@
                    &&& geometry@.indices == indices@
                },
                Err(error) => {
                    &&& !is_triangle_list(vertices@.len(), indices@)
                    &&& is_fault_of(error, vertices@.len(), indices@)
                },
            },
    {
        let index_count = indices.len();
        let vertex_count = vertices.len();
        if index_count % 3 != 0 {
            return Err(GeometryError::IncompleteTriangle { index_count });
        }
        let mut position: usize = 0;
        while position < index_count
            invariant
                index_count == indices@.len(),
                vertex_count == vertices@.len(),
                position <= index_count,
                index_count % 3 == 0,
                forall|i: int| 0 <= i < position ==> (#[trigger] indices@[i] as nat) < vertex_count,
            decreases index_count - position,
        {
            let index = indices[position];
            if index as usize >= vertex_count {
                assert(indices@[position as int] as nat >= vertex_count);
                return Err(GeometryError::IndexOutOfRange { position, index, vertex_count });
            }
            position += 1;
        }
        Ok(Geometry { vertices, indices })
    }

    /// Makes the geometry of a triangle list that is known to be one.
    pub(crate) fn from_triangle_list(vertices: Vec<V>, indices: Vec<u16>) -> (geometry: Geometry<V>)
        requires
            is_triangle_list(vertices@.len(), indices@),
        ensures
            geometry@.vertices == vertices@,
            geometry@.indices == indices@,
    {
        Geometry { vertices, indices }
    }

    /// The vertices, in the order they were given.
    pub fn vertices(&self) -> (vertices: &Vec<V>)
        ensures
            vertices@ == self@.vertices,
    {
        &self.vertices
    }

    /// The indices, three to a triangle.
    pub fn indices(&self) -> (indices: &Vec<u16>)
        ensures
            indices@ == self@.indices,
            is_triangle_list(self@.vertices.len(), indices@),
    {
        proof {
            use_type_invariant(self);
        }
        &self.indices
    }

    /// The contents of the index buffer: the indices as they lie in memory,
    /// two bytes each.
    pub fn index_bytes(&self) -> (bytes: Vec<u8>)
        ensures
            in_memory_order(self@.indices, bytes@),
            bytes@.len() % 6 == 0,
    {
        proof {
            use_type_invariant(self);
        }
        cast_indices(&self.indices)
    }

    /// How many indices a draw of the whole geometry covers.
    pub fn index_count(&self) -> (count: usize)
        ensures
            count == self@.indices.len(),
            count % 3 == 0,
    {
        proof {
            use_type_invariant(self);
        }
        self.indices.len()
    }

    /// How many triangles the geometry has.
    pub fn triangle_count(&self) -> (count: usize)
        ensures
            3 * count == self@.indices.len(),
    {
        proof {
            use_type_invariant(self);
        }
        self.indices.len() / 3
    }
}

/// A vertex list and an index list have at most one fault.
pub proof fn lemma_fault_is_unique(
    first: GeometryError,
    second: GeometryError,
    vertex_count: nat,
    indices: Seq<u16>,
)
    requires
        is_fault_of(first, vertex_count, indices),
        is_fault_of(second, vertex_count, indices),
        vertex_count <= usize::MAX,
    ensures
        first == second,
{
    if let GeometryError::IndexOutOfRange { position: at, .. } = first {
        if let GeometryError::IndexOutOfRange { position: other, .. } = second {
            if at < other {
                assert(indices[at as int] as nat >= vertex_count);
            } else if other < at {
                assert(indices[other as int] as nat >= vertex_count);
            }
        }
    }
}

} // verus!
