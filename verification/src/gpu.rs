//! The buffers that go to the GPU, and what is staged in them.
use bevy::render::render_resource::{BufferUsages, RawBufferVec};
use vstd::prelude::*;

use crate::frame::FxVertex;
use crate::scratch::FxScratch;

verus! {

impl FxVertex {
    /// The vertex as the shader reads it: position, uv, color.
    pub open spec fn as_words(self) -> Seq<u32> {
        seq![
            self.position.x.bits,
            self.position.y.bits,
            self.position.z.bits,
            self.uv.x.bits,
            self.uv.y.bits,
            self.color.red.bits,
            self.color.green.bits,
            self.color.blue.bits,
            self.color.alpha.bits,
        ]
    }

    /// The vertex as the shader reads it: position, uv, color.
    pub fn words(&self) -> (words: [u32; 9])
        ensures
            words@ == self.as_words(),
    {
        let words = [
            self.position.x.bits,
            self.position.y.bits,
            self.position.z.bits,
            self.uv.x.bits,
            self.uv.y.bits,
            self.color.red.bits,
            self.color.green.bits,
            self.color.blue.bits,
            self.color.alpha.bits,
        ];
        assert(words@ =~= self.as_words());
        words
    }
}

/// The vertices staged for the GPU, each as nine words, in bevy's
/// [`RawBufferVec`]. What it holds is [`staged_vertices`]; uploading goes
/// through `raw`.
#[verifier::external_body]
pub struct VertexBuffer {
    pub raw: RawBufferVec<[u32; 9]>,
}

/// The indices staged for the GPU, in bevy's [`RawBufferVec`]. What it holds is
/// [`staged_indices`]; uploading goes through `raw`.
#[verifier::external_body]
pub struct IndexBuffer {
    pub raw: RawBufferVec<u32>,
}

/// The values that a vertex buffer has staged, in order.
pub uninterp spec fn staged_vertices(buffer: VertexBuffer) -> Seq<Seq<u32>>;

/// The values that an index buffer has staged, in order.
pub uninterp spec fn staged_indices(buffer: IndexBuffer) -> Seq<u32>;

/// What the GPU reads a buffer as.
#[derive(Clone, Copy, PartialEq, Eq, Structural, Debug)]
pub enum BufferUse {
    Vertex,
    Index,
}

/// The use that a vertex buffer was made for.
pub uninterp spec fn vertices_use(buffer: VertexBuffer) -> BufferUse;

/// The use that an index buffer was made for.
pub uninterp spec fn indices_use(buffer: IndexBuffer) -> BufferUse;

/// Makes an empty buffer of vertices with [`RawBufferVec::new`]. Claimed:
/// nothing is staged in it, and it is for the given use.
#[verifier::external_body]
fn new_vertices(usage: BufferUse) -> (buffer: VertexBuffer)
    ensures
        staged_vertices(buffer) == Seq::<Seq<u32>>::empty(),
        vertices_use(buffer) == usage,
{
    let usages = match usage {
        BufferUse::Vertex => BufferUsages::VERTEX,
        BufferUse::Index => BufferUsages::INDEX,
    };
    VertexBuffer { raw: RawBufferVec::new(usages) }
}

/// Makes an empty buffer of indices with [`RawBufferVec::new`]. Claimed:
/// nothing is staged in it, and it is for the given use.
#[verifier::external_body]
fn new_indices(usage: BufferUse) -> (buffer: IndexBuffer)
    ensures
        staged_indices(buffer) == Seq::<u32>::empty(),
        indices_use(buffer) == usage,
{
    let usages = match usage {
        BufferUse::Vertex => BufferUsages::VERTEX,
        BufferUse::Index => BufferUsages::INDEX,
    };
    IndexBuffer { raw: RawBufferVec::new(usages) }
}

/// [`RawBufferVec::clear`] on vertices. Claimed: nothing stays staged, and the
/// use stays the same.
#[verifier::external_body]
fn clear_vertices(buffer: &mut VertexBuffer)
    ensures
        staged_vertices(*final(buffer)) == Seq::<Seq<u32>>::empty(),
        vertices_use(*final(buffer)) == vertices_use(*old(buffer)),
{
    buffer.raw.clear();
}

/// [`RawBufferVec::clear`] on indices. Claimed: nothing stays staged, and the
/// use stays the same.
#[verifier::external_body]
fn clear_indices(buffer: &mut IndexBuffer)
    ensures
        staged_indices(*final(buffer)) == Seq::<u32>::empty(),
        indices_use(*final(buffer)) == indices_use(*old(buffer)),
{
    buffer.raw.clear();
}

/// [`RawBufferVec::push`] on vertices. Claimed: the value is staged after the
/// ones before it, and the use stays the same.
#[verifier::external_body]
fn push_vertex(buffer: &mut VertexBuffer, words: [u32; 9])
    ensures
        staged_vertices(*final(buffer)) == staged_vertices(*old(buffer)).push(words@),
        vertices_use(*final(buffer)) == vertices_use(*old(buffer)),
{
    buffer.raw.push(words);
}

/// [`RawBufferVec::push`] on indices. Claimed: the value is staged after the
/// ones before it, and the use stays the same.
#[verifier::external_body]
fn push_index(buffer: &mut IndexBuffer, index: u32)
    ensures
        staged_indices(*final(buffer)) == staged_indices(*old(buffer)).push(index),
        indices_use(*final(buffer)) == indices_use(*old(buffer)),
{
    buffer.raw.push(index);
}

/// The persistent GPU buffers. Allocated once at capacity and refilled in
/// place.
pub struct FxGpuBuffers {
    pub vertices: VertexBuffer,
    pub indices: IndexBuffer,
    pub index_count: u32,
}

/// The vertices of a scratch, each as its words.
pub open spec fn scratch_words(vertices: Seq<FxVertex>) -> Seq<Seq<u32>> {
    Seq::new(vertices.len(), |i: int| vertices[i].as_words())
}

impl FxGpuBuffers {
    /// The GPU reads the vertices as vertices and the indices as indices.
    pub open spec fn wf(&self) -> bool {
        vertices_use(self.vertices) is Vertex && indices_use(self.indices) is Index
    }

    /// Buffers with nothing in them and nothing to draw.
    pub fn new() -> (buffers: FxGpuBuffers)
        ensures
            buffers.wf(),
            vertices_use(buffers.vertices) == BufferUse::Vertex,
            indices_use(buffers.indices) == BufferUse::Index,
            staged_vertices(buffers.vertices) == Seq::<Seq<u32>>::empty(),
            staged_indices(buffers.indices) == Seq::<u32>::empty(),
            buffers.index_count == 0,
    {
        FxGpuBuffers {
            vertices: new_vertices(BufferUse::Vertex),
            indices: new_indices(BufferUse::Index),
            index_count: 0,
        }
    }

    /// Replaces what is staged by the geometry of the frame, and tells whether
    /// there is anything to upload.
    pub fn refill(&mut self, scratch: &FxScratch) -> (upload: bool)
        ensures
            staged_vertices(final(self).vertices) == scratch_words(scratch.vertices@),
            staged_indices(final(self).indices) == scratch.indices@,
            final(self).index_count == scratch.indices.len() as u32,
            upload == (final(self).index_count > 0),
            vertices_use(final(self).vertices) == vertices_use(old(self).vertices),
            indices_use(final(self).indices) == indices_use(old(self).indices),
    {
        clear_vertices(&mut self.vertices);
        let mut i: usize = 0;
        while i < scratch.vertices.len()
            invariant
                i <= scratch.vertices@.len(),
                vertices_use(self.vertices) == vertices_use(old(self).vertices),
                self.indices == old(self).indices,
                staged_vertices(self.vertices) =~= scratch_words(
                    scratch.vertices@.take(i as int),
                ),
            decreases scratch.vertices@.len() - i,
        {
            push_vertex(&mut self.vertices, scratch.vertices[i].words());
            i = i + 1;
        }
        clear_indices(&mut self.indices);
        let mut j: usize = 0;
        while j < scratch.indices.len()
            invariant
                j <= scratch.indices@.len(),
                vertices_use(self.vertices) == vertices_use(old(self).vertices),
                indices_use(self.indices) == indices_use(old(self).indices),
                staged_indices(self.indices) =~= scratch.indices@.take(j as int),
                staged_vertices(self.vertices) == scratch_words(scratch.vertices@),
            decreases scratch.indices@.len() - j,
        {
            push_index(&mut self.indices, scratch.indices[j]);
            j = j + 1;
        }
        self.index_count = scratch.indices.len() as u32;
        self.index_count > 0
    }
}

/// The vertices are staged one for one and in their order, each as the words
/// that the shader reads.
pub proof fn law_every_vertex_is_staged(vertices: Seq<FxVertex>)
    ensures
        scratch_words(vertices).len() == vertices.len(),
        forall|i: int|
            0 <= i < vertices.len() ==> #[trigger] scratch_words(vertices)[i] == seq![
                vertices[i].position.x.bits,
                vertices[i].position.y.bits,
                vertices[i].position.z.bits,
                vertices[i].uv.x.bits,
                vertices[i].uv.y.bits,
                vertices[i].color.red.bits,
                vertices[i].color.green.bits,
                vertices[i].color.blue.bits,
                vertices[i].color.alpha.bits,
            ],
{
}

} // verus!
