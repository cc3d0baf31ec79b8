//! The mesh: vertices, the flattened face indices, the corner count of each
//! face, and the attribute channels that go with the vertices.

pub mod color_sample;
pub mod sample;

use vstd::prelude::*;
use crate::batch::{
    batch, batches, has_degenerate, lemma_cornered_runs, lemma_triangles_one_run, spans, total,
    DrawError, DrawRun, Span,
};
use crate::color::Color;
use crate::mat::{raise, Vec2d, Vec3d, INFINITY, ONE, ZERO};

verus! {

/// The working arity of a mesh that has no face yet.
pub const UNSET: usize = 0;

/// The working arity of a mesh whose faces differ in their corner counts.
pub const MIXED: usize = 1;

/// Whether the texture is shown, and the shader slot that says so.
#[derive(Copy, Clone, Debug, PartialEq, Eq, Structural)]
pub struct TextureSwitch {
    pub id: i32,
    pub texture_on: bool,
}

impl TextureSwitch {
    pub fn new() -> (r: Self)
        ensures
            r == (TextureSwitch { id: 0, texture_on: false }),
    {
        Self { id: 0, texture_on: false }
    }

    /// Binds the switch to the shader slot `id`.
    pub fn set_program(&mut self, id: i32)
        ensures
            *final(self) == (TextureSwitch { id, texture_on: old(self).texture_on }),
    {
        self.id = id;
    }

    pub fn switch(&mut self)
        ensures
            *final(self) == (TextureSwitch { id: old(self).id, texture_on: !old(self).texture_on }),
    {
        self.texture_on = !self.texture_on;
    }

    /// The slot and the integer to store in it.
    pub fn set(&self) -> (r: (i32, i32))
        ensures
            r.0 == self.id,
            r.1 == if self.texture_on {
                1i32
            } else {
                0i32
            },
    {
        (
            self.id,
            if self.texture_on {
                1
            } else {
                0
            },
        )
    }
}

/// A mesh and its attribute channels.
pub struct Model {
    vertices: Vec<Vec3d>,
    colors: Vec<Color>,
    uv: Vec<Vec2d>,
    indices: Vec<u32>,
    index_set: usize,
    index_count: Vec<usize>,
    max_size: u32,
    texture_on: TextureSwitch,
}

/// The mathematical content of a [`Model`].
pub struct ModelView {
    /// The vertex positions.
    pub vertices: Seq<Vec3d>,
    /// The colour of each vertex, or nothing.
    pub colors: Seq<Color>,
    /// The texture coordinates of each vertex, or nothing.
    pub uv: Seq<Vec2d>,
    /// The corner indices of all faces, one face after the other.
    pub indices: Seq<u32>,
    /// The working arity: `UNSET`, `MIXED`, or the corner count that the
    /// faces share.
    pub index_set: usize,
    /// The corner count of each face.
    pub index_count: Seq<usize>,
    /// The magnitude pattern of the extent of the mesh.
    pub max_size: u32,
    pub texture_on: TextureSwitch,
}

impl View for Model {
    type V = ModelView;

    closed spec fn view(&self) -> ModelView {
        ModelView {
            vertices: self.vertices@,
            colors: self.colors@,
            uv: self.uv@,
            indices: self.indices@,
            index_set: self.index_set,
            index_count: self.index_count@,
            max_size: self.max_size,
            texture_on: self.texture_on,
        }
    }
}

impl ModelView {
    /// The mesh without vertices, faces or attributes.
    pub open spec fn empty() -> ModelView {
        ModelView {
            vertices: Seq::empty(),
            colors: Seq::empty(),
            uv: Seq::empty(),
            indices: Seq::empty(),
            index_set: UNSET,
            index_count: Seq::empty(),
            max_size: ZERO,
            texture_on: TextureSwitch { id: 0, texture_on: false },
        }
    }

    /// The mesh with one more vertex, its extent raised to the weight of
    /// each coordinate of `v`.
    pub open spec fn with_vertex(self, v: Vec3d) -> ModelView {
        ModelView { vertices: self.vertices.push(v), max_size: v.raised(self.max_size), ..self }
    }

    /// The mesh with one more face of the given corners.
    pub open spec fn with_face(self, face: Seq<u32>) -> ModelView {
        ModelView {
            indices: self.indices + face,
            index_count: self.index_count.push(face.len() as usize),
            index_set: next_index_set(self.index_set, face.len() as usize),
            ..self
        }
    }

    /// Whether every corner index names a vertex.
    pub open spec fn indices_in_range(self) -> bool {
        forall|i: int| 0 <= i < self.indices.len() ==> (#[trigger] self.indices[i]) < self.vertices.len()
    }

    /// Whether the faces stand for exactly the indices of the mesh.
    pub open spec fn faces_match(self) -> bool {
        total(self.index_count) == self.indices.len()
    }

    /// The mesh in which every corner owns a vertex: the vertex that each
    /// index named, in the order of the indices, which become `0, 1, 2, ...`.
    /// A mesh without indices is left as it is.
    pub open spec fn resolved(self) -> ModelView {
        if self.indices.len() == 0 {
            self
        } else {
            ModelView {
                vertices: Seq::new(
                    self.indices.len(),
                    |i: int| self.vertices[self.indices[i] as int],
                ),
                indices: Seq::new(self.indices.len(), |i: int| i as u32),
                ..self
            }
        }
    }

    /// The texture coordinates of a mesh that had none: the four corners of
    /// the unit square in turn.
    pub open spec fn with_uv(self) -> ModelView {
        if self.uv.len() > 0 {
            self
        } else {
            ModelView { uv: Seq::new(self.vertices.len(), |i: int| corner(i)), ..self }
        }
    }

    /// The draw runs of the mesh. Without indices the vertices are drawn
    /// as they come, three to a triangle; with triangles only, all
    /// indices are drawn at once; otherwise the faces are batched.
    pub open spec fn runs(self) -> Seq<Span> {
        if self.indices.len() == 0 {
            seq![Span { start: 0, count: self.vertices.len() as int, arity: 3 }]
        } else if self.index_set == 3 {
            seq![Span { start: 0, count: self.indices.len() as int, arity: 3 }]
        } else {
            batches(self.index_count, self.indices.len() as int)
        }
    }

    /// Whether the working arity is the one that the faces lead to.
    pub open spec fn arity_inferred(self) -> bool {
        self.index_set == inferred(self.index_count)
    }

    /// Whether every face has three corners or more.
    pub open spec fn faces_cornered(self) -> bool {
        forall|i: int| 0 <= i < self.index_count.len() ==> (#[trigger] self.index_count[i]) >= 3
    }

    /// Whether every coordinate of every vertex is a finite number, and the
    /// extent with them.
    pub open spec fn is_finite(self) -> bool {
        &&& forall|i: int| 0 <= i < self.vertices.len() ==> (#[trigger] self.vertices[i]).is_finite()
        &&& self.max_size < INFINITY
    }

    /// Whether the extent is the largest weight among all coordinates of all
    /// vertices: no coordinate weighs more, and one weighs as much unless
    /// the extent is zero.
    pub open spec fn extent_is_peak(self) -> bool {
        &&& forall|i: int|
            0 <= i < self.vertices.len() ==> (#[trigger] self.vertices[i]).within(self.max_size)
        &&& self.max_size == 0 || exists|i: int|
            0 <= i < self.vertices.len() && (#[trigger] self.vertices[i]).reaches(self.max_size)
    }
}

/// The working arity after a face of `count` corners. The first face sets
/// it; a later face that is no triangle and differs from it makes the mesh
/// mixed.
pub open spec fn next_index_set(current: usize, count: usize) -> usize {
    if current == UNSET {
        count
    } else if count != 3 && count != current {
        MIXED
    } else {
        current
    }
}

/// The working arity that faces of the given corner counts lead to, face
/// by face, from a mesh without faces.
pub open spec fn inferred(counts: Seq<usize>) -> usize
    decreases counts.len(),
{
    if counts.len() == 0 {
        UNSET
    } else {
        next_index_set(inferred(counts.drop_last()), counts.last())
    }
}

/// The corner of the unit square that the vertex at `position` is given:
/// (0, 0), (1, 0), (0, 1), (1, 1), and so on in turn.
pub open spec fn corner(position: int) -> Vec2d {
    let turn = position % 4;
    Vec2d {
        d0: if turn == 1 || turn == 3 {
            ONE
        } else {
            ZERO
        },
        d1: if turn >= 2 {
            ONE
        } else {
            ZERO
        },
    }
}

/// An extent that is the largest weight among all coordinates is the
/// magnitude of a number.
pub proof fn lemma_peak_is_number(m: ModelView)
    requires
        m.extent_is_peak(),
    ensures
        m.max_size <= INFINITY,
{
}

/// Adding a vertex of finite coordinates keeps the coordinates and the
/// extent of a mesh finite.
pub proof fn lemma_vertex_keeps_finite(m: ModelView, v: Vec3d)
    requires
        m.is_finite(),
        v.is_finite(),
    ensures
        m.with_vertex(v).is_finite(),
{
    let after = m.with_vertex(v);
    assert forall|i: int| 0 <= i < after.vertices.len() implies (#[trigger] after.vertices[i]).is_finite() by {
        if i < m.vertices.len() {
            assert(after.vertices[i] == m.vertices[i]);
        }
    }
}

/// Adding a vertex keeps the extent the largest weight among all
/// coordinates.
pub proof fn lemma_vertex_keeps_peak(m: ModelView, v: Vec3d)
    requires
        m.extent_is_peak(),
    ensures
        m.with_vertex(v).extent_is_peak(),
        m.with_vertex(v).max_size >= m.max_size,
{
    let after = m.with_vertex(v);
    let last = m.vertices.len() as int;
    assert(after.vertices[last] == v);
    assert forall|i: int| 0 <= i < after.vertices.len() implies (#[trigger] after.vertices[i]).within(
        after.max_size,
    ) by {
        if i < last {
            assert(after.vertices[i] == m.vertices[i]);
            assert(m.vertices[i].within(m.max_size));
        }
    }
    if after.max_size != 0 {
        if after.max_size == m.max_size {
            let i = choose|i: int|
                0 <= i < m.vertices.len() && (#[trigger] m.vertices[i]).reaches(m.max_size);
            assert(after.vertices[i] == m.vertices[i]);
            assert(after.vertices[i].reaches(after.max_size));
        } else {
            assert(after.vertices[last].reaches(after.max_size));
        }
    }
}

/// The faces of a longer record stand for the indices of the shorter one
/// and those of the face that was added.
pub proof fn lemma_total_push(arities: Seq<usize>, count: usize)
    ensures
        total(arities.push(count)) == total(arities) + count,
{
    assert(arities.push(count).drop_last() =~= arities);
}

/// Adding a face keeps the faces and the indices of a mesh in step.
pub proof fn lemma_face_keeps_match(m: ModelView, face: Seq<u32>)
    requires
        m.faces_match(),
        face.len() <= usize::MAX,
    ensures
        m.with_face(face).faces_match(),
{
    lemma_total_push(m.index_count, face.len() as usize);
}

/// Adding a face keeps the working arity the one that the faces lead to.
pub proof fn lemma_face_keeps_inference(m: ModelView, face: Seq<u32>)
    requires
        m.arity_inferred(),
    ensures
        m.with_face(face).arity_inferred(),
{
    assert(m.index_count.push(face.len() as usize).drop_last() =~= m.index_count);
}

/// Faces of two corners or more leave the working arity unset only if
/// there is none of them, and lead to the working arity three only if all
/// of them are triangles.
pub proof fn lemma_inferred_triangles(counts: Seq<usize>)
    requires
        forall|i: int| 0 <= i < counts.len() ==> (#[trigger] counts[i]) >= 2,
    ensures
        inferred(counts) == UNSET ==> counts.len() == 0,
        inferred(counts) == 3 ==> forall|i: int| 0 <= i < counts.len() ==> (#[trigger] counts[i]) == 3,
    decreases counts.len(),
{
    if counts.len() > 0 {
        let front = counts.drop_last();
        assert forall|i: int| 0 <= i < front.len() implies (#[trigger] front[i]) >= 2 by {
            assert(front[i] == counts[i]);
        }
        lemma_inferred_triangles(front);
        assert(counts.last() >= 2);
        if inferred(counts) == 3 {
            assert forall|i: int| 0 <= i < counts.len() implies (#[trigger] counts[i]) == 3 by {
                if i < front.len() {
                    assert(front[i] == counts[i]);
                }
            }
        }
    }
}

/// Where the working arity is three, drawing all indices at once is what
/// batching the faces comes to: in a mesh whose working arity is the one
/// that its faces lead to, whose faces have three corners or more and stand
/// for exactly its indices, the draw runs are the batches of its faces.
pub proof fn lemma_runs_are_batches(m: ModelView)
    requires
        m.arity_inferred(),
        m.faces_cornered(),
        m.faces_match(),
        m.indices.len() > 0,
    ensures
        m.runs() == batches(m.index_count, m.indices.len() as int),
{
    if m.index_set == 3 {
        assert forall|i: int| 0 <= i < m.index_count.len() implies (#[trigger] m.index_count[i])
            >= 2 by {
            assert(m.index_count[i] >= 3);
        }
        lemma_inferred_triangles(m.index_count);
        if m.index_count.len() > 0 {
            lemma_triangles_one_run(m.index_count);
        }
    }
}

/// Resolving a mesh keeps its faces: they stand for exactly its indices
/// as before, with the corners and the working arity that they had.
pub proof fn lemma_resolve_keeps_faces(m: ModelView)
    ensures
        m.resolved().index_count == m.index_count,
        m.resolved().index_set == m.index_set,
        m.resolved().indices.len() == m.indices.len(),
        m.resolved().runs() == m.runs() || m.indices.len() == 0,
        m.faces_match() ==> m.resolved().faces_match(),
{
}

/// Resolving a mesh a second time changes nothing: every corner already
/// owns its vertex, and the indices are already `0, 1, 2, ...`.
pub proof fn lemma_resolve_idempotent(m: ModelView)
    requires
        m.indices_in_range(),
        m.indices.len() <= 0x1_0000_0000,
    ensures
        m.resolved().indices_in_range(),
        m.resolved().resolved() == m.resolved(),
        m.resolved().vertices.len() == m.resolved().resolved().vertices.len(),
{
    let once = m.resolved();
    let twice = once.resolved();
    if m.indices.len() > 0 {
        assert(twice.vertices =~= once.vertices);
        assert(twice.indices =~= once.indices);
    }
}

impl Model {
    pub fn new() -> (r: Self)
        ensures
            r@ == ModelView::empty(),
    {
        Self {
            vertices: Vec::new(),
            colors: Vec::new(),
            uv: Vec::new(),
            indices: Vec::new(),
            index_set: 0,
            index_count: Vec::new(),
            max_size: 0,
            texture_on: TextureSwitch::new(),
        }
    }

    /// Binds the texture switch to the shader slot `id`.
    pub fn set_texture(&mut self, id: i32)
        ensures
            final(self)@ == (ModelView {
                texture_on: TextureSwitch { id, texture_on: old(self)@.texture_on.texture_on },
                ..old(self)@
            }),
    {
        self.texture_on.set_program(id);
    }

    pub fn switch_texture(&mut self)
        ensures
            final(self)@ == (ModelView {
                texture_on: TextureSwitch {
                    id: old(self)@.texture_on.id,
                    texture_on: !old(self)@.texture_on.texture_on,
                },
                ..old(self)@
            }),
    {
        self.texture_on.switch();
    }

    pub fn get_texture(&self) -> (r: TextureSwitch)
        ensures
            r == self@.texture_on,
    {
        self.texture_on
    }

    /// The magnitude pattern of the extent.
    pub fn get_max_size(&self) -> (r: u32)
        ensures
            r == self@.max_size,
    {
        self.max_size
    }

    pub fn get_vertices(&self) -> (r: &Vec<Vec3d>)
        ensures
            r@ == self@.vertices,
    {
        &self.vertices
    }

    pub fn get_colors(&self) -> (r: &Vec<Color>)
        ensures
            r@ == self@.colors,
    {
        &self.colors
    }

    pub fn get_uv(&self) -> (r: &Vec<Vec2d>)
        ensures
            r@ == self@.uv,
    {
        &self.uv
    }

    pub fn get_indices(&self) -> (r: &Vec<u32>)
        ensures
            r@ == self@.indices,
    {
        &self.indices
    }

    pub fn get_index_count(&self) -> (r: &Vec<usize>)
        ensures
            r@ == self@.index_count,
    {
        &self.index_count
    }

    pub fn get_index_set(&self) -> (r: usize)
        ensures
            r == self@.index_set,
    {
        self.index_set
    }

    pub fn set_index_set(&mut self, index_set: usize)
        ensures
            final(self)@ == (ModelView { index_set, ..old(self)@ }),
    {
        self.index_set = index_set
    }

    pub fn push_index_count(&mut self, count: usize)
        ensures
            final(self)@ == (ModelView {
                index_count: old(self)@.index_count.push(count),
                ..old(self)@
            }),
    {
        self.index_count.push(count);
    }

    pub fn is_empty(&self) -> (r: bool)
        ensures
            r == (self@.vertices.len() == 0),
    {
        self.vertices.is_empty()
    }

    /// Adds a vertex and raises the extent of the mesh to the weight of each
    /// of its coordinates. The vertex is taken as it is: whether its
    /// coordinates are finite is for the caller to see to.
    pub fn push_vertices(&mut self, vec: Vec3d)
        ensures
            final(self)@ == old(self)@.with_vertex(vec),
            old(self)@.is_finite() && vec.is_finite() ==> final(self)@.is_finite(),
            old(self)@.extent_is_peak() ==> final(self)@.extent_is_peak(),
    {
        proof {
            if self@.is_finite() && vec.is_finite() {
                lemma_vertex_keeps_finite(self@, vec);
            }
            if self@.extent_is_peak() {
                lemma_vertex_keeps_peak(self@, vec);
            }
        }
        let m0: u32 = raise(self.max_size, vec.d0);
        let m1: u32 = raise(m0, vec.d1);
        let m2: u32 = raise(m1, vec.d2);
        self.max_size = m2;
        self.vertices.push(vec);
    }

    pub fn push_indices(&mut self, value: u32)
        ensures
            final(self)@ == (ModelView { indices: old(self)@.indices.push(value), ..old(self)@ }),
    {
        self.indices.push(value);
    }

    /// Whether every corner index names a vertex.
    pub fn has_valid_indices(&self) -> (r: bool)
        ensures
            r == self@.indices_in_range(),
    {
        let n: usize = self.vertices.len();
        let mut i: usize = 0;
        while i < self.indices.len()
            invariant
                i <= self.indices.len(),
                n == self.vertices.len(),
                forall|j: int| 0 <= j < i ==> (#[trigger] self.indices@[j]) < n,
            decreases self.indices.len() - i,
        {
            if self.indices[i] as usize >= n {
                assert(!(self@.indices[i as int] < self@.vertices.len()));
                return false;
            }
            i = i + 1;
        }
        true
    }

    /// Gives every corner of every face a vertex of its own.
    pub fn resolve_duplicate_indices(&mut self)
        requires
            old(self)@.indices_in_range(),
            old(self)@.indices.len() <= 0x1_0000_0000,
        ensures
            final(self)@ == old(self)@.resolved(),
            final(self)@.indices_in_range(),
            old(self)@.faces_match() ==> final(self)@.faces_match(),
    {
        if self.indices.is_empty() {
            return ;
        }
        let n: usize = self.indices.len();
        let mut vertices: Vec<Vec3d> = Vec::new();
        let mut indices: Vec<u32> = Vec::new();
        let mut i: usize = 0;
        while i < n
            invariant
                i <= n,
                n == self.indices.len(),
                n <= 0x1_0000_0000,
                *self == *old(self),
                self@.indices_in_range(),
                vertices.len() == i,
                indices.len() == i,
                forall|j: int|
                    0 <= j < i ==> #[trigger] vertices@[j] == self.vertices@[self.indices@[j] as int],
                forall|j: int| 0 <= j < i ==> #[trigger] indices@[j] == j as u32,
            decreases n - i,
        {
            let index: usize = self.indices[i] as usize;
            assert(self@.indices[i as int] < self@.vertices.len());
            vertices.push(self.vertices[index]);
            indices.push(i as u32);
            i = i + 1;
        }
        self.indices = indices;
        self.vertices = vertices;
        proof {
            assert(self@.vertices =~= old(self)@.resolved().vertices);
            assert(self@.indices =~= old(self)@.resolved().indices);
        }
    }

    /// Gives a mesh without texture coordinates the four corners of the
    /// unit square in turn, one for each vertex.
    pub fn set_uv(&mut self)
        ensures
            final(self)@ == old(self)@.with_uv(),
    {
        if !self.uv.is_empty() {
            return ;
        }
        let n: usize = self.vertices.len();
        let mut i: usize = 0;
        while i < n
            invariant
                i <= n,
                n == self.vertices.len(),
                self.uv.len() == i,
                forall|j: int| 0 <= j < i ==> #[trigger] self.uv@[j] == corner(j),
                self@ == (ModelView { uv: self.uv@, ..old(self)@ }),
            decreases n - i,
        {
            if i % 4 == 0 {
                self.uv.push(Vec2d::new(ZERO, ZERO));
            } else if i % 4 == 1 {
                self.uv.push(Vec2d::new(ONE, ZERO));
            } else if i % 4 == 2 {
                self.uv.push(Vec2d::new(ZERO, ONE));
            } else {
                self.uv.push(Vec2d::new(ONE, ONE));
            }
            i = i + 1;
        }
        proof {
            assert(self@.uv =~= old(self)@.with_uv().uv);
        }
    }

    /// The draw runs of the mesh, or the reason why it cannot be drawn:
    /// some run is made of faces with one or two corners. A mesh whose
    /// faces all have three corners or more can be drawn. Where the faces
    /// are batched, the indices that they stand for must be no more than a
    /// `usize` counts, as they are where the faces stand for exactly the
    /// indices of the mesh.
    pub fn draw(&self) -> (r: Result<Vec<DrawRun>, DrawError>)
        requires
            self@.indices.len() > 0 && self@.index_set != 3 ==> self@.faces_match() || total(
                self@.index_count,
            ) <= usize::MAX,
        ensures
            match r {
                Ok(runs) => spans(runs@) == self@.runs() && !has_degenerate(self@.runs()),
                Err(e) => e == DrawError::UnsupportedArity && has_degenerate(self@.runs()),
            },
            self@.faces_cornered() ==> r is Ok,
    {
        proof {
            if self@.faces_cornered() {
                lemma_cornered_runs(self@.index_count, self@.indices.len() as int);
                assert(!has_degenerate(self@.runs()));
            }
            assert(self@.indices.len() == self.indices.len());
        }
        let runs: Vec<DrawRun> = if self.indices.is_empty() {
            let mut one: Vec<DrawRun> = Vec::new();
            one.push(DrawRun { start: 0, count: self.vertices.len(), arity: 3 });
            one
        } else if self.index_set == 3 {
            let mut one: Vec<DrawRun> = Vec::new();
            one.push(DrawRun { start: 0, count: self.indices.len(), arity: 3 });
            one
        } else {
            batch(&self.index_count, self.indices.len())
        };
        assert(spans(runs@) =~= self@.runs());
        let mut i: usize = 0;
        while i < runs.len()
            invariant
                i <= runs.len(),
                spans(runs@) == self@.runs(),
                self@.faces_cornered() ==> !has_degenerate(self@.runs()),
                forall|j: int|
                    0 <= j < i ==> (#[trigger] self@.runs()[j]).arity != 1 && self@.runs()[j].arity
                        != 2,
            decreases runs.len() - i,
        {
            assert(spans(runs@)[i as int] == runs@[i as int]@);
            if runs[i].arity == 1 || runs[i].arity == 2 {
                return Err(DrawError::UnsupportedArity);
            }
            i = i + 1;
        }
        Ok(runs)
    }
}

} // verus!
