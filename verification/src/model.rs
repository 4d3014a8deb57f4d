//! Meshes: lists of vertices, with or without a list of indices that picks
//! the corners of the triangles.

use vstd::prelude::*;

verus! {

/// A kind of number that counts vertices.
pub trait FromUsize: Sized {
    /// The index that a count becomes.
    spec fn spec_from_usize(v: usize) -> Self;

    /// The count that an index stands for.
    spec fn spec_to_usize(&self) -> usize;

    fn from_usize(v: usize) -> (i: Self)
        ensures
            i == Self::spec_from_usize(v),
    ;

    fn to_usize(&self) -> (v: usize)
        ensures
            v == self.spec_to_usize(),
    ;
}

impl FromUsize for u16 {
    /// The low 16 bits of the count.
    open spec fn spec_from_usize(v: usize) -> u16 {
        v as u16
    }

    open spec fn spec_to_usize(&self) -> usize {
        *self as usize
    }

    fn from_usize(v: usize) -> u16 {
        v as u16
    }

    fn to_usize(&self) -> usize {
        *self as usize
    }
}

/// A list of vertices and a list of indices into it.
pub struct MeshModel<V, I> {
    pub vertices: Vec<V>,
    pub indices: Vec<I>,
}

impl<V, I> MeshModel<V, I> {
    /// A mesh without vertices.
    pub fn new() -> (m: Self)
        ensures
            m.vertices@ == Seq::<V>::empty(),
            m.indices@ == Seq::<I>::empty(),
    {
        MeshModel { vertices: Vec::new(), indices: Vec::new() }
    }
}

impl<V, I> Default for MeshModel<V, I> {
    fn default() -> (m: Self)
        ensures
            m.vertices@ == Seq::<V>::empty(),
            m.indices@ == Seq::<I>::empty(),
    {
        Self::new()
    }
}

/// A mesh that takes vertices and indices one by one.
pub trait VertexModel<V, I: FromUsize>: Sized {
    /// The vertices of the mesh.
    spec fn spec_vertices(&self) -> Seq<V>;

    /// The indices of the mesh.
    spec fn spec_indices(&self) -> Seq<I>;

    /// Appends a vertex and tells its index.
    fn push_vertex(&mut self, v: V) -> (i: I)
        ensures
            final(self).spec_vertices() == old(self).spec_vertices().push(v),
            final(self).spec_indices() == old(self).spec_indices(),
            old(self).spec_vertices().len() <= usize::MAX,
            i == I::spec_from_usize(old(self).spec_vertices().len() as usize),
    ;

    /// Appends an index.
    fn push_index(&mut self, i: I)
        ensures
            final(self).spec_vertices() == old(self).spec_vertices(),
            final(self).spec_indices() == old(self).spec_indices().push(i),
    ;

    /// Replaces the vertex that an index points at.
    fn set_vertex(&mut self, i: I, v: V)
        requires
            i.spec_to_usize() < old(self).spec_vertices().len(),
        ensures
            final(self).spec_vertices() == old(self).spec_vertices().update(
                i.spec_to_usize() as int,
                v,
            ),
            final(self).spec_indices() == old(self).spec_indices(),
    ;

    /// The vertex that an index points at.
    fn get_vertex(&self, i: I) -> (v: &V)
        requires
            i.spec_to_usize() < self.spec_vertices().len(),
        ensures
            *v == self.spec_vertices()[i.spec_to_usize() as int],
    ;
}

impl<V, I: FromUsize> VertexModel<V, I> for MeshModel<V, I> {
    open spec fn spec_vertices(&self) -> Seq<V> {
        self.vertices@
    }

    open spec fn spec_indices(&self) -> Seq<I> {
        self.indices@
    }

    fn push_vertex(&mut self, v: V) -> (i: I) {
        let i = self.vertices.len();
        self.vertices.push(v);
        I::from_usize(i)
    }

    fn push_index(&mut self, i: I) {
        self.indices.push(i);
    }

    fn set_vertex(&mut self, i: I, v: V) {
        let index = i.to_usize();
        self.vertices[index] = v;
    }

    fn get_vertex(&self, i: I) -> (v: &V) {
        let index = i.to_usize();
        &self.vertices[index]
    }
}

/// A mesh that takes triangles.
pub trait TriangleModel<V, I: FromUsize>: VertexModel<V, I> {
    /// Appends the three corners of a triangle.
    fn push_triangle(&mut self, a: V, b: V, c: V)
        ensures
            final(self).spec_vertices() == old(self).spec_vertices().push(a).push(b).push(c),
            final(self).spec_indices() == old(self).spec_indices(),
    {
        self.push_vertex(a);
        self.push_vertex(b);
        self.push_vertex(c);
    }

    /// Appends the three indices of a triangle.
    fn push_triangle_indexes(&mut self, a: I, b: I, c: I)
        ensures
            final(self).spec_vertices() == old(self).spec_vertices(),
            final(self).spec_indices() == old(self).spec_indices().push(a).push(b).push(c),
    {
        self.push_index(a);
        self.push_index(b);
        self.push_index(c);
    }
}

impl<V, I: FromUsize> TriangleModel<V, I> for MeshModel<V, I> {

}

/// The three corners of a triangle.
pub struct TriangleRef<'a, V> {
    pub a: &'a V,
    pub b: &'a V,
    pub c: &'a V,
}

/// A mesh whose triangles can be walked.
pub trait IterTriangleModel<V, I: FromUsize> {
    fn iter(&self) -> (it: TriangleIterator<'_, V, I>)
        ensures
            it.next == 0,
    ;
}

impl<V, I: FromUsize> IterTriangleModel<V, I> for MeshModel<V, I> {
    fn iter(&self) -> (it: TriangleIterator<'_, V, I>)
        ensures
            it.mesh == self,
            it.is_indices == (self.indices@.len() > 0),
    {
        let is_indices = !self.indices.is_empty();
        TriangleIterator { mesh: self, is_indices, next: 0 }
    }
}

/// A walk over the triangles of a mesh: over its indices three by three if
/// it has any, else over its vertices three by three.
pub struct TriangleIterator<'a, V, I> {
    pub mesh: &'a MeshModel<V, I>,
    pub is_indices: bool,
    /// How many triangles are handed out.
    pub next: usize,
}

impl<'a, V, I: FromUsize> TriangleIterator<'a, V, I> {
    /// The mesh has a triangle number `n`: three indices, or else three
    /// vertices, from place `3 * n` on.
    pub open spec fn has_triangle(&self, n: int) -> bool {
        if self.is_indices {
            3 * n + 2 < self.mesh.indices@.len()
        } else {
            3 * n + 2 < self.mesh.vertices@.len()
        }
    }

    /// The corner `k` of triangle `n`.
    pub open spec fn corner(&self, n: int, k: int) -> V {
        if self.is_indices {
            self.mesh.vertices@[self.mesh.indices@[3 * n + k].spec_to_usize() as int]
        } else {
            self.mesh.vertices@[3 * n + k]
        }
    }

    /// The indices of triangle `n` point at vertices of the mesh.
    pub open spec fn triangle_ok(&self, n: int) -> bool {
        self.is_indices ==> forall|k: int|
            0 <= k < 3 ==> (#[trigger] self.mesh.indices@[3 * n + k]).spec_to_usize()
                < self.mesh.vertices@.len()
    }

    /// Hands out the next triangle with its number, or says that no whole
    /// triangle is left.
    pub fn next(&mut self) -> (r: Option<(usize, TriangleRef<'a, V>)>)
        requires
            old(self).has_triangle(old(self).next as int) ==> old(self).triangle_ok(
                old(self).next as int,
            ),
        ensures
            final(self).mesh == old(self).mesh,
            final(self).is_indices == old(self).is_indices,
            r is Some <==> old(self).has_triangle(old(self).next as int),
            r is None ==> final(self).next == old(self).next,
            r matches Some((n, t)) ==> {
                &&& n == old(self).next
                &&& final(self).next == old(self).next + 1
                &&& *t.a == old(self).corner(n as int, 0)
                &&& *t.b == old(self).corner(n as int, 1)
                &&& *t.c == old(self).corner(n as int, 2)
            },
    {
        let n = self.next;
        let mesh: &'a MeshModel<V, I> = self.mesh;
        let len = if self.is_indices {
            mesh.indices.len()
        } else {
            mesh.vertices.len()
        };
        if len < 3 || n > (len - 3) / 3 {
            return None;
        }
        let i = 3 * n;
        self.next = n + 1;
        if self.is_indices {
            assert(mesh.indices@[3 * n + 0].spec_to_usize() < mesh.vertices@.len());
            assert(mesh.indices@[3 * n + 1].spec_to_usize() < mesh.vertices@.len());
            assert(mesh.indices@[3 * n + 2].spec_to_usize() < mesh.vertices@.len());
            let i1 = mesh.indices[i].to_usize();
            let i2 = mesh.indices[i + 1].to_usize();
            let i3 = mesh.indices[i + 2].to_usize();
            let t = TriangleRef { a: &mesh.vertices[i1], b: &mesh.vertices[i2], c: &mesh.vertices[i3] };
            Some((n, t))
        } else {
            let t = TriangleRef {
                a: &mesh.vertices[i],
                b: &mesh.vertices[i + 1],
                c: &mesh.vertices[i + 2],
            };
            Some((n, t))
        }
    }
}


impl<'a, V, I: FromUsize> TriangleIterator<'a, V, I> {
    /// Tells whether the walk is over or the indices of the next triangle
    /// point at vertices of the mesh.
    pub fn triangle_ready(&self) -> (b: bool)
        ensures
            b == (self.has_triangle(self.next as int) ==> self.triangle_ok(self.next as int)),
    {
        if !self.is_indices {
            return true;
        }
        let n = self.next;
        let len = self.mesh.indices.len();
        if len < 3 || n > (len - 3) / 3 {
            return true;
        }
        let i = 3 * n;
        let count = self.mesh.vertices.len();
        let a = self.mesh.indices[i].to_usize() < count;
        let b = self.mesh.indices[i + 1].to_usize() < count;
        let c = self.mesh.indices[i + 2].to_usize() < count;
        proof {
            if a && b && c {
                assert forall|k: int| 0 <= k < 3 implies (#[trigger] self.mesh.indices@[3 * n
                    + k]).spec_to_usize() < self.mesh.vertices@.len() by {
                    if k == 0 {
                    } else if k == 1 {
                    } else {
                    }
                }
            } else if !a {
                assert(self.mesh.indices@[3 * n + 0].spec_to_usize() >= count);
            } else if !b {
                assert(self.mesh.indices@[3 * n + 1].spec_to_usize() >= count);
            } else {
                assert(self.mesh.indices@[3 * n + 2].spec_to_usize() >= count);
            }
        }
        a && b && c
    }
}

} // verus!
