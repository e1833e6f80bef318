//! Vertex and index lists that several shapes append to, each shape's indices
//! counted from its own first vertex.
use crate::geometry::Vector2;
use vstd::prelude::*;

verus! {

/// A color, each channel out of 255.
#[derive(Clone, Copy, Debug, PartialEq, Eq, Structural)]
pub struct Color {
    pub r: u8,
    pub g: u8,
    pub b: u8,
}

/// A corner of a drawn triangle: a point of the field and its color.
#[derive(Clone, Copy, Debug, PartialEq, Eq, Structural)]
pub struct Vertex {
    pub position: Vector2,
    pub color: Color,
}

/// The indices `ix`, each moved on by `base`.
pub open spec fn rebased(ix: Seq<u16>, base: int) -> Seq<int> {
    Seq::new(ix.len(), |j: int| ix[j] + base)
}

/// Every index of `ix` plus `base` fits in a `u16`.
pub open spec fn fits_after(ix: Seq<u16>, base: int) -> bool {
    forall|j: int| 0 <= j < ix.len() ==> ix[j] + base <= u16::MAX
}

/// The finished lists: the triangles to draw.
#[derive(Clone, Debug)]
pub struct Mesh {
    pub vertices: Vec<Vertex>,
    pub indices: Vec<u16>,
}

/// Lists under construction.
#[derive(Clone, Debug)]
pub struct MeshBuilder {
    vertices: Vec<Vertex>,
    indices: Vec<u16>,
}

impl Mesh {
    /// An empty builder.
    pub fn builder() -> (r: MeshBuilder)
        ensures
            r.vertex_list() == Seq::<Vertex>::empty(),
            r.index_list() == Seq::<u16>::empty(),
    {
        MeshBuilder::new()
    }

    /// The number of indices, three for each triangle.
    pub fn index_count(&self) -> (r: u32)
        requires
            self.indices@.len() <= u32::MAX,
        ensures
            r == self.indices@.len(),
    {
        self.indices.len() as u32
    }
}

impl MeshBuilder {
    /// The vertices pushed so far.
    pub closed spec fn vertex_list(&self) -> Seq<Vertex> {
        self.vertices@
    }

    /// The indices pushed so far, each already counted from the first vertex.
    pub closed spec fn index_list(&self) -> Seq<u16> {
        self.indices@
    }

    /// An empty builder.
    pub fn new() -> (r: MeshBuilder)
        ensures
            r.vertex_list() == Seq::<Vertex>::empty(),
            r.index_list() == Seq::<u16>::empty(),
    {
        MeshBuilder { vertices: Vec::new(), indices: Vec::new() }
    }

    /// Appends `vertices`, and `indices` moved on by the number of vertices
    /// held before, so that they point into the appended vertices.
    pub fn push(&mut self, vertices: Vec<Vertex>, indices: Vec<u16>)
        requires
            old(self).vertex_list().len() <= u16::MAX,
            fits_after(indices@, old(self).vertex_list().len() as int),
        ensures
            final(self).vertex_list() == old(self).vertex_list() + vertices@,
            final(self).index_list().len() == old(self).index_list().len() + indices@.len(),
            final(self).index_list().subrange(0, old(self).index_list().len() as int)
                == old(self).index_list(),
            forall|j: int|
                0 <= j < indices@.len() ==> final(self).index_list()[old(self).index_list().len()
                    + j] == rebased(indices@, old(self).vertex_list().len() as int)[j],
    {
        let current: u16 = self.vertices.len() as u16;
        let ghost old_indices = self.indices@;
        let mut k: usize = 0;
        while k < indices.len()
            invariant
                current == self.vertices@.len(),
                self.vertices@ == old(self).vertices@,
                old_indices == old(self).indices@,
                current <= u16::MAX,
                fits_after(indices@, current as int),
                k <= indices@.len(),
                self.indices@.len() == old_indices.len() + k,
                self.indices@.subrange(0, old_indices.len() as int) == old_indices,
                forall|j: int|
                    0 <= j < k ==> self.indices@[old_indices.len() + j] == indices@[j] + current,
            decreases indices@.len() - k,
        {
            let i = indices[k];
            assert(indices@[k as int] + current <= u16::MAX);
            self.indices.push(current + i);
            k = k + 1;
            assert(self.indices@.subrange(0, old_indices.len() as int) =~= old_indices);
        }
        let ghost old_vertices = self.vertices@;
        let ghost new_indices = self.indices@;
        let mut m: usize = 0;
        while m < vertices.len()
            invariant
                self.indices@ == new_indices,
                m <= vertices@.len(),
                self.vertices@ == old_vertices + vertices@.subrange(0, m as int),
            decreases vertices@.len() - m,
        {
            self.vertices.push(vertices[m]);
            m = m + 1;
            assert(self.vertices@ =~= old_vertices + vertices@.subrange(0, m as int));
        }
        assert(vertices@.subrange(0, vertices@.len() as int) =~= vertices@);
    }

    /// The finished lists.
    pub fn build(self) -> (r: Mesh)
        ensures
            r.vertices@ == self.vertex_list(),
            r.indices@ == self.index_list(),
    {
        Mesh { vertices: self.vertices, indices: self.indices }
    }
}

} // verus!
