//! The mesh produced by the OBJ parser: vertices, triangles, and the plan
//! that says which triangle's tangent frame each vertex record receives.

use vstd::prelude::*;
use crate::lexer::texts;

verus! {

/// One mesh sample. Each coordinate is kept as the literal text of the file
/// (for instance `-0.5` or `1e3`), which the rendering side converts to a float.
#[derive(Debug, PartialEq)]
pub struct Vertex {
    /// Three coordinates.
    pub position: Vec<Vec<char>>,
    /// Three coordinates.
    pub normal: Vec<Vec<char>>,
    /// Two coordinates.
    pub uv: Vec<Vec<char>>,
}

/// The contents of a [`Vertex`].
pub struct VertexView {
    pub position: Seq<Seq<char>>,
    pub normal: Seq<Seq<char>>,
    pub uv: Seq<Seq<char>>,
}

impl View for Vertex {
    type V = VertexView;

    open spec fn view(&self) -> VertexView {
        VertexView {
            position: texts(self.position@),
            normal: texts(self.normal@),
            uv: texts(self.uv@),
        }
    }
}

impl VertexView {
    pub open spec fn wf(&self) -> bool {
        self.position.len() == 3 && self.normal.len() == 3 && self.uv.len() == 2
    }
}

/// Three indices into a mesh's vertex sequence, forming one triangle.
#[derive(Debug, Clone, Copy, PartialEq, Eq, Structural)]
pub struct VertexIndex(pub u32, pub u32, pub u32);

/// A triangle mesh: an ordered vertex sequence and triangles over it.
#[derive(Debug, PartialEq)]
pub struct Object {
    pub vertexes: Vec<Vertex>,
    pub triangle_indices: Vec<VertexIndex>,
}

/// The contents of an [`Object`].
pub struct ObjectView {
    pub vertexes: Seq<VertexView>,
    pub triangles: Seq<VertexIndex>,
}

impl View for Object {
    type V = ObjectView;

    open spec fn view(&self) -> ObjectView {
        ObjectView {
            vertexes: self.vertexes@.map_values(|v: Vertex| v@),
            triangles: self.triangle_indices@,
        }
    }
}

/// Whether triangle `t` has vertex `v` as one of its corners.
pub open spec fn has_corner(t: VertexIndex, v: int) -> bool {
    t.0 == v || t.1 == v || t.2 == v
}

/// Whether every corner of `t` is below `n`.
pub open spec fn in_range(t: VertexIndex, n: int) -> bool {
    t.0 < n && t.1 < n && t.2 < n
}

impl ObjectView {
    /// Every vertex has its coordinate counts and every triangle corner
    /// names an existing vertex.
    pub open spec fn wf(&self) -> bool {
        &&& forall|i: int| 0 <= i < self.vertexes.len() ==> (#[trigger] self.vertexes[i]).wf()
        &&& forall|k: int|
            0 <= k < self.triangles.len() ==> in_range(
                #[trigger] self.triangles[k],
                self.vertexes.len() as int,
            )
    }
}

/// The position of the last triangle of `tris` that has `v` as a corner.
pub open spec fn last_with_corner(tris: Seq<VertexIndex>, v: int) -> Option<int>
    decreases tris.len(),
{
    if tris.len() == 0 {
        None
    } else if has_corner(tris.last(), v) {
        Some(tris.len() - 1)
    } else {
        last_with_corner(tris.drop_last(), v)
    }
}

/// Whether `r` records, for every vertex below `n`, the last triangle of
/// `tris` that uses it.
pub open spec fn records_last_corners(r: Seq<Option<usize>>, tris: Seq<VertexIndex>, n: int) -> bool {
    &&& r.len() == n
    &&& forall|v: int|
        0 <= v < n ==> match #[trigger] r[v] {
            Some(k) => last_with_corner(tris, v) == Some(k as int),
            None => last_with_corner(tris, v) is None,
        }
}

impl Object {
    /// For each vertex, the triangle whose tangent frame its expanded record
    /// carries. Frames are handed out triangle by triangle in order, each
    /// triangle writing its frame over those of its three corners, so a vertex
    /// ends with the frame of the last triangle that uses it; a vertex that no
    /// triangle uses keeps a zero frame (`None`).
    pub fn tangent_sources(&self) -> (r: Vec<Option<usize>>)
        requires
            self@.wf(),
        ensures
            records_last_corners(r@, self@.triangles, self@.vertexes.len() as int),
    {
        let n = self.vertexes.len();
        let ghost tris = self@.triangles;
        let mut r: Vec<Option<usize>> = Vec::new();
        let mut i: usize = 0;
        while i < n
            invariant
                i <= n,
                n == self@.vertexes.len(),
                r@.len() == i,
                forall|v: int| 0 <= v < i ==> #[trigger] r@[v] is None,
            decreases n - i,
        {
            r.push(None);
            i = i + 1;
        }
        assert(tris.take(0) =~= seq![]);
        let mut k: usize = 0;
        while k < self.triangle_indices.len()
            invariant
                k <= tris.len(),
                tris == self@.triangles,
                n == self@.vertexes.len(),
                self@.wf(),
                records_last_corners(r@, tris.take(k as int), n as int),
            decreases tris.len() - k,
        {
            let t = self.triangle_indices[k];
            assert(in_range(tris[k as int], n as int));
            r[t.0 as usize] = Some(k);
            r[t.1 as usize] = Some(k);
            r[t.2 as usize] = Some(k);
            proof {
                let pre = tris.take(k + 1);
                assert(pre.drop_last() =~= tris.take(k as int));
                assert(pre.last() == t);
            }
            k = k + 1;
        }
        assert(tris.take(k as int) =~= tris);
        r
    }
}

/// Expanding the same mesh twice hands every vertex the frame of the same triangle.
pub proof fn lemma_tangent_sources_repeatable(a: ObjectView, b: ObjectView, v: int)
    requires
        a == b,
    ensures
        last_with_corner(a.triangles, v) == last_with_corner(b.triangles, v),
{
}

/// A copy of `v`.
pub(crate) fn copy_text(v: &Vec<char>) -> (r: Vec<char>)
    ensures
        r@ == v@,
{
    let mut r: Vec<char> = Vec::new();
    let mut i: usize = 0;
    while i < v.len()
        invariant
            i <= v@.len(),
            r@ == v@.take(i as int),
        decreases v@.len() - i,
    {
        r.push(v[i]);
        i = i + 1;
        assert(r@ =~= v@.take(i as int));
    }
    assert(v@.take(i as int) =~= v@);
    r
}

/// A copy of `v`.
pub(crate) fn copy_texts(v: &Vec<Vec<char>>) -> (r: Vec<Vec<char>>)
    ensures
        texts(r@) == texts(v@),
{
    let mut r: Vec<Vec<char>> = Vec::new();
    let mut i: usize = 0;
    while i < v.len()
        invariant
            i <= v@.len(),
            texts(r@) == texts(v@).take(i as int),
        decreases v@.len() - i,
    {
        let ghost prev = r@;
        r.push(copy_text(&v[i]));
        i = i + 1;
        assert(texts(r@) =~= texts(prev).push(v@[i - 1]@));
        assert(texts(r@) =~= texts(v@).take(i as int));
    }
    assert(texts(v@).take(i as int) =~= texts(v@));
    r
}

} // verus!
