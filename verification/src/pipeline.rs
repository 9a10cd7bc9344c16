//! What the render pipeline is made of, and when it is put to use.
use vstd::prelude::*;

use crate::frame::FxVertex;
use crate::gpu::FxGpuBuffers;
use crate::scratch::FxScratch;

verus! {

/// The shader stage that reads a binding.
#[derive(Clone, Copy, PartialEq, Eq, Structural, Debug)]
pub enum Stage {
    Vertex,
    Fragment,
}

/// What a binding holds.
#[derive(Clone, Copy, PartialEq, Eq, Structural, Debug)]
pub enum Resource {
    /// The uniforms of the view.
    ViewUniforms { dynamic_offset: bool },
    /// The atlas, a two-dimensional texture.
    AtlasTexture { filterable: bool, multisampled: bool },
    /// The sampler of the atlas.
    AtlasSampler { filtering: bool },
}

/// One entry of the bind group layout.
#[derive(Clone, Copy, PartialEq, Eq, Structural, Debug)]
pub struct BindingSlot {
    pub binding: u32,
    pub stage: Stage,
    pub resource: Resource,
}

/// The bind group layout: the view for the vertex stage, then the atlas and
/// its sampler for the fragment stage.
pub open spec fn binding_table() -> Seq<BindingSlot> {
    seq![
        BindingSlot {
            binding: 0,
            stage: Stage::Vertex,
            resource: Resource::ViewUniforms { dynamic_offset: true },
        },
        BindingSlot {
            binding: 1,
            stage: Stage::Fragment,
            resource: Resource::AtlasTexture { filterable: true, multisampled: false },
        },
        BindingSlot {
            binding: 2,
            stage: Stage::Fragment,
            resource: Resource::AtlasSampler { filtering: true },
        },
    ]
}

/// The entries of the bind group layout, in the order in which a bind group
/// lists what it binds.
pub fn bind_group_slots() -> (slots: [BindingSlot; 3])
    ensures
        slots@ == binding_table(),
{
    let slots = [
        BindingSlot {
            binding: 0,
            stage: Stage::Vertex,
            resource: Resource::ViewUniforms { dynamic_offset: true },
        },
        BindingSlot {
            binding: 1,
            stage: Stage::Fragment,
            resource: Resource::AtlasTexture { filterable: true, multisampled: false },
        },
        BindingSlot {
            binding: 2,
            stage: Stage::Fragment,
            resource: Resource::AtlasSampler { filtering: true },
        },
    ];
    assert(slots@ =~= binding_table());
    slots
}

/// A vertex attribute: so many words, starting at a byte of the vertex, read by
/// the shader at a location.
#[derive(Clone, Copy, PartialEq, Eq, Structural, Debug)]
pub struct Attribute {
    pub words: u64,
    pub offset: u64,
    pub location: u32,
}

/// How the vertex buffer is read: bytes from one vertex to the next, and the
/// attributes of each.
#[derive(Clone, Copy)]
pub struct VertexLayout {
    pub stride: u64,
    pub attributes: [Attribute; 3],
}

/// The attributes of a vertex: position, uv and color.
pub open spec fn attribute_table() -> Seq<Attribute> {
    seq![
        Attribute { words: 3, offset: 0, location: 0 },
        Attribute { words: 2, offset: 12, location: 1 },
        Attribute { words: 4, offset: 20, location: 2 },
    ]
}

/// Bytes of a vertex.
pub const VERTEX_STRIDE: u64 = 36;

/// The layout of [`crate::FxVertex`].
pub fn vertex_layout() -> (layout: VertexLayout)
    ensures
        layout.stride == VERTEX_STRIDE,
        layout.attributes@ == attribute_table(),
{
    let attributes = [
        Attribute { words: 3, offset: 0, location: 0 },
        Attribute { words: 2, offset: 12, location: 1 },
        Attribute { words: 4, offset: 20, location: 2 },
    ];
    assert(attributes@ =~= attribute_table());
    VertexLayout { stride: VERTEX_STRIDE, attributes }
}

/// The words of a vertex that an attribute reads.
pub open spec fn words_read(vertex: FxVertex, attribute: Attribute) -> Seq<u32> {
    vertex.as_words().subrange(
        attribute.offset as int / 4,
        attribute.offset as int / 4 + attribute.words,
    )
}

/// The layout mirrors the vertex: the attributes follow each other without a
/// gap up to the end of the vertex, and read its position, uv and color.
pub proof fn law_layout_mirrors_the_vertex(vertex: FxVertex)
    ensures
        VERTEX_STRIDE == 4 * vertex.as_words().len(),
        attribute_table()[0].offset == 0,
        forall|i: int|
            0 <= i < 2 ==> (#[trigger] attribute_table()[i]).offset + 4
                * attribute_table()[i].words == attribute_table()[i + 1].offset,
        attribute_table()[2].offset + 4 * attribute_table()[2].words == VERTEX_STRIDE,
        words_read(vertex, attribute_table()[0]) == seq![
            vertex.position.x.bits,
            vertex.position.y.bits,
            vertex.position.z.bits,
        ],
        words_read(vertex, attribute_table()[1]) == seq![vertex.uv.x.bits, vertex.uv.y.bits],
        words_read(vertex, attribute_table()[2]) == seq![
            vertex.color.red.bits,
            vertex.color.green.bits,
            vertex.color.blue.bits,
            vertex.color.alpha.bits,
        ],
{
}

/// Which fragments win over what was drawn before.
#[derive(Clone, Copy, PartialEq, Eq, Structural, Debug)]
pub enum DepthTest {
    /// Those at least as near: depth grows towards the camera.
    GreaterEqual,
}

/// The fixed state of the pipeline.
#[derive(Clone, Copy, PartialEq, Eq, Structural, Debug)]
pub struct FixedState {
    pub depth_write: bool,
    pub depth_test: DepthTest,
    pub blend: bool,
}

/// Effects draw like opaque geometry: tested against the depth buffer and
/// written to it, never blended.
pub fn fixed_state() -> (state: FixedState)
    ensures
        state.depth_write,
        state.depth_test is GreaterEqual,
        !state.blend,
{
    FixedState { depth_write: true, depth_test: DepthTest::GreaterEqual, blend: false }
}

/// A pipeline before it is made: what depends on the view.
pub struct PipelineDraft<F> {
    /// Samples per pixel.
    pub samples: u32,
    /// The formats that the fragment stage draws to, if there is such a stage;
    /// unused targets have none.
    pub targets: Option<Vec<Option<F>>>,
}

/// Multisampling of a view.
#[derive(Clone, Copy, PartialEq, Eq, Structural, Debug)]
pub enum Msaa {
    Off,
    Sample2,
    Sample4,
    Sample8,
}

impl Msaa {
    pub open spec fn count(self) -> u32 {
        match self {
            Msaa::Off => 1,
            Msaa::Sample2 => 2,
            Msaa::Sample4 => 4,
            Msaa::Sample8 => 8,
        }
    }

    /// Samples per pixel.
    pub fn samples(self) -> (samples: u32)
        ensures
            samples == self.count(),
            samples == match self {
                Msaa::Off => 1u32,
                Msaa::Sample2 => 2u32,
                Msaa::Sample4 => 4u32,
                Msaa::Sample8 => 8u32,
            },
    {
        match self {
            Msaa::Off => 1,
            Msaa::Sample2 => 2,
            Msaa::Sample4 => 4,
            Msaa::Sample8 => 8,
        }
    }
}

/// What the pipelines of two views can differ in.
pub struct FxKey<F> {
    pub msaa: Msaa,
    /// Format that the view draws to.
    pub format: F,
}

/// The targets of a pipeline for a view that draws to `format`: the first one,
/// where it is used, takes the format of the view.
pub open spec fn retargeted<F>(targets: Seq<Option<F>>, format: F) -> Seq<Option<F>> {
    if targets.len() > 0 && targets[0] is Some {
        targets.update(0, Some(format))
    } else {
        targets
    }
}

/// Fits the pipeline to a view.
pub fn specialize<F: Copy>(draft: &mut PipelineDraft<F>, key: FxKey<F>)
    ensures
        final(draft).samples == key.msaa.count(),
        match old(draft).targets {
            Some(targets) => {
                &&& final(draft).targets is Some
                &&& final(draft).targets->0@ == retargeted(targets@, key.format)
            },
            None => final(draft).targets is None,
        },
        old(draft).targets matches Some(before) ==> {
            let after = final(draft).targets->0@;
            &&& after.len() == before@.len()
            &&& before@.len() >= 1 && before@[0] is Some ==> after[0] == Some(key.format)
            &&& before@.len() >= 1 && before@[0] is None ==> after[0] is None
            &&& forall|i: int| 1 <= i < before@.len() ==> #[trigger] after[i] == before@[i]
        },
{
    draft.samples = key.msaa.samples();
    if let Some(targets) = &mut draft.targets {
        if targets.len() > 0 {
            if targets[0].is_some() {
                targets[0] = Some(key.format);
            }
        }
    }
}

/// What to do about the bind group.
#[derive(Clone, Copy, PartialEq, Eq, Structural, Debug)]
pub enum BindStep {
    /// Something it needs is not there yet.
    Wait,
    /// The one there is still fits.
    Keep,
    /// Make one from the current view buffer and atlas.
    Create,
}

/// How an existing bind group relates to what is current.
#[derive(Clone, Copy, PartialEq, Eq, Structural, Debug)]
pub struct BindMatch {
    /// It binds the view uniform buffer that there is now: the buffer has not
    /// been reallocated since.
    pub same_view_buffer: bool,
    /// It binds the atlas image as it is loaded now: the image has not been
    /// loaded again since, be it from another asset or from the same one.
    pub same_image: bool,
}

/// The bind group is made once pipeline, atlas, view uniforms and the loaded
/// image are all there, and made again exactly when the view uniform buffer was
/// reallocated or the atlas image loaded again.
pub fn bind_group_step(
    pipeline: bool,
    atlas: bool,
    view_uniforms: bool,
    image_loaded: bool,
    existing: Option<BindMatch>,
) -> (step: BindStep)
    ensures
        step is Wait <==> !(pipeline && atlas && view_uniforms && image_loaded),
        step is Keep <==> {
            &&& pipeline && atlas && view_uniforms && image_loaded
            &&& existing == Some(BindMatch { same_view_buffer: true, same_image: true })
        },
{
    if !pipeline || !atlas {
        return BindStep::Wait;
    }
    if !view_uniforms {
        return BindStep::Wait;
    }
    if !image_loaded {
        return BindStep::Wait;
    }
    if let Some(found) = existing {
        if found.same_view_buffer && found.same_image {
            return BindStep::Keep;
        }
    }
    BindStep::Create
}

/// What to do about the buffers.
#[derive(Clone, Copy, PartialEq, Eq, Structural, Debug)]
pub enum BufferStep {
    /// There is no geometry yet.
    Wait,
    /// Make the buffers, with room for so many vertices and indices.
    Create { vertices: usize, indices: usize },
    /// Refill the ones there are.
    Refill,
}

/// Number of indices to reserve for so many vertices: a ribbon needs up to
/// three per vertex.
pub open spec fn index_room(vertex_capacity: int) -> int {
    vertex_capacity * 3
}

/// The buffers are made once, at the capacity of the scratch, and from then on
/// only refilled. `vertex_capacity` is that of the scratch, if there is one.
pub fn buffers_step(vertex_capacity: Option<usize>, buffers: bool) -> (step: BufferStep)
    requires
        vertex_capacity matches Some(capacity) ==> buffers || capacity * 3 <= usize::MAX,
    ensures
        step == match vertex_capacity {
            None => BufferStep::Wait,
            Some(capacity) => if buffers {
                BufferStep::Refill
            } else {
                BufferStep::Create {
                    vertices: capacity,
                    indices: index_room(capacity as int) as usize,
                }
            },
        },
        step matches BufferStep::Create { vertices, indices } ==> {
            &&& vertex_capacity == Some(vertices)
            &&& indices == 3 * vertices
        },
{
    match vertex_capacity {
        None => BufferStep::Wait,
        Some(capacity) => {
            if buffers {
                BufferStep::Refill
            } else {
                BufferStep::Create { vertices: capacity, indices: capacity * 3 }
            }
        },
    }
}

/// The buffers are never made again: the geometry of a frame fits into the room
/// that was reserved for it.
pub proof fn law_buffers_are_never_outgrown(scratch: FxScratch)
    requires
        scratch.wf(),
    ensures
        scratch.vertices@.len() <= scratch.vertex_capacity,
        scratch.indices@.len() <= index_room(scratch.vertex_capacity as int),
        scratch.indices@.len() <= 3 * scratch.vertex_capacity,
        forall|k: int|
            0 <= k < scratch.indices@.len() ==> (#[trigger] scratch.indices@[k])
                < scratch.vertices@.len(),
        scratch.indices@.len() % 3 == 0,
{
}

/// Number of indices to draw: none without buffers.
pub fn drawable(buffers: Option<&FxGpuBuffers>) -> (index_count: u32)
    ensures
        index_count == match buffers {
            Some(buffers) => buffers.index_count,
            None => 0,
        },
{
    match buffers {
        Some(buffers) => buffers.index_count,
        None => 0,
    }
}

/// How far queueing the draw of a view has come.
#[derive(Clone, Copy, PartialEq, Eq, Structural, Debug)]
pub enum QueueState {
    /// The pipelines and the phase of the view are being looked up.
    Lookup,
    /// The pipeline for the view is being made.
    Specialize,
    Done,
}

/// What came out of a lookup.
pub enum QueueEvent<P> {
    /// Whether there are pipelines at all, and whether the view has a phase.
    LookedUp { pipelines: bool, phase: bool },
    /// The pipeline for the view, if it could be made.
    Specialized(Option<P>),
}

/// What to do with the view's phase next.
pub enum QueueAction<K, P> {
    /// Leave it as it is.
    Nothing,
    /// Take our draw of earlier frames out.
    Remove,
    /// Take our draw of earlier frames out, and make the pipeline for this key.
    RemoveAndSpecialize(K),
    /// Put a draw with this pipeline in.
    Put(P),
}

/// What [`queue_step`] decides.
pub open spec fn queue_rule<K, P>(
    state: QueueState,
    event: QueueEvent<P>,
    index_count: u32,
    key: K,
) -> (QueueState, QueueAction<K, P>) {
    match (state, event) {
        (QueueState::Lookup, QueueEvent::LookedUp { pipelines: true, phase: true }) => {
            if index_count == 0 {
                (QueueState::Done, QueueAction::Remove)
            } else {
                (QueueState::Specialize, QueueAction::RemoveAndSpecialize(key))
            }
        },
        (QueueState::Specialize, QueueEvent::Specialized(Some(pipeline))) => {
            (QueueState::Done, QueueAction::Put(pipeline))
        },
        _ => (QueueState::Done, QueueAction::Nothing),
    }
}

/// One step of queueing the draw of a view, whose pipeline is the one for
/// `key`. Phases are kept across frames: the draw of earlier frames is taken
/// out, and one put in again only while there is anything to draw.
pub fn queue_step<K, P>(
    state: QueueState,
    event: QueueEvent<P>,
    index_count: u32,
    key: K,
) -> (next: (QueueState, QueueAction<K, P>))
    ensures
        next == queue_rule(state, event, index_count, key),
{
    match (state, event) {
        (QueueState::Lookup, QueueEvent::LookedUp { pipelines, phase }) => {
            if !pipelines || !phase {
                (QueueState::Done, QueueAction::Nothing)
            } else if index_count == 0 {
                (QueueState::Done, QueueAction::Remove)
            } else {
                (QueueState::Specialize, QueueAction::RemoveAndSpecialize(key))
            }
        },
        (QueueState::Specialize, QueueEvent::Specialized(Some(pipeline))) => {
            (QueueState::Done, QueueAction::Put(pipeline))
        },
        _ => (QueueState::Done, QueueAction::Nothing),
    }
}

/// An entry of a phase: a draw of ours with its pipeline, or anything else.
pub enum PhaseEntry<P, O> {
    Fx(P),
    Other(O),
}

/// The entries of a phase that are not ours.
pub open spec fn others<P, O>(phase: Seq<PhaseEntry<P, O>>) -> Seq<PhaseEntry<P, O>> {
    phase.filter(|entry: PhaseEntry<P, O>| entry is Other)
}

/// The entries of a phase that are ours.
pub open spec fn ours<P, O>(phase: Seq<PhaseEntry<P, O>>) -> Seq<PhaseEntry<P, O>> {
    phase.filter(|entry: PhaseEntry<P, O>| entry is Fx)
}

/// A phase after an action.
pub open spec fn phase_after<K, P, O>(
    phase: Seq<PhaseEntry<P, O>>,
    action: QueueAction<K, P>,
) -> Seq<PhaseEntry<P, O>> {
    match action {
        QueueAction::Nothing => phase,
        QueueAction::Remove => others(phase),
        QueueAction::RemoveAndSpecialize(_) => others(phase),
        QueueAction::Put(pipeline) => phase.push(PhaseEntry::Fx(pipeline)),
    }
}

/// A view's phase once its draw is queued: the lookup, and the making of the
/// pipeline if it comes to that, which gives `specialized`.
pub open spec fn queued<K, P, O>(
    phase: Seq<PhaseEntry<P, O>>,
    pipelines: bool,
    has_phase: bool,
    index_count: u32,
    key: K,
    specialized: Option<P>,
) -> Seq<PhaseEntry<P, O>> {
    let (state, action) = queue_rule(
        QueueState::Lookup,
        QueueEvent::LookedUp { pipelines, phase: has_phase },
        index_count,
        key,
    );
    let cleared = phase_after(phase, action);
    if state is Specialize {
        phase_after(
            cleared,
            queue_rule(state, QueueEvent::Specialized(specialized), index_count, key).1,
        )
    } else {
        cleared
    }
}

/// Whatever earlier frames left in it, a view's phase ends up with exactly one
/// draw of ours, by the pipeline for the view, when there is something to draw
/// and that pipeline could be made, and with none otherwise. What is not ours
/// stays as it is. Without pipelines, or without a phase, nothing is touched.
pub proof fn law_phase_follows_the_frame<K, P, O>(
    phase: Seq<PhaseEntry<P, O>>,
    pipelines: bool,
    has_phase: bool,
    index_count: u32,
    key: K,
    specialized: Option<P>,
)
    ensures
        ({
            let after = queued(phase, pipelines, has_phase, index_count, key, specialized);
            let (_, asked) = queue_rule(
                QueueState::Lookup,
                QueueEvent::<P>::LookedUp { pipelines, phase: has_phase },
                index_count,
                key,
            );
            &&& !pipelines || !has_phase ==> after == phase
            &&& pipelines && has_phase ==> {
                &&& others(after) == others(phase)
                &&& ours(after) == if index_count > 0 && specialized is Some {
                    seq![PhaseEntry::<P, O>::Fx(specialized->0)]
                } else {
                    seq![]
                }
                &&& index_count > 0 ==> asked == QueueAction::<K, P>::RemoveAndSpecialize(key)
            }
        }),
{
    let after = queued(phase, pipelines, has_phase, index_count, key, specialized);
    if pipelines && has_phase {
        lemma_only_others(phase);
        let cleared = others(phase);
        if index_count > 0 && specialized is Some {
            reveal(Seq::filter);
            let entry = PhaseEntry::<P, O>::Fx(specialized->0);
            assert(after == cleared.push(entry));
            assert(after.drop_last() =~= cleared);
            assert(ours(after) =~= seq![entry]);
        }
    }
}

/// Taking out what is ours leaves nothing of ours, and all of the rest.
proof fn lemma_only_others<P, O>(phase: Seq<PhaseEntry<P, O>>)
    ensures
        others(others(phase)) == others(phase),
        ours(others(phase)) == Seq::<PhaseEntry<P, O>>::empty(),
    decreases phase.len(),
{
    reveal(Seq::filter);
    if phase.len() > 0 {
        let rest = phase.drop_last();
        lemma_only_others(rest);
        if phase.last() is Other {
            assert(others(phase) =~= others(rest).push(phase.last()));
            assert(others(phase).drop_last() =~= others(rest));
        }
    }
}

/// What to do when the draw's turn comes.
#[derive(Clone, Copy, PartialEq, Eq, Structural, Debug)]
pub enum DrawStep {
    Skip,
    /// Draw the indices from 0 up to `indices`, once.
    Draw { indices: u32 },
}

/// The draw takes place once both buffers are on the GPU and the bind group is
/// made.
pub fn draw_step(
    buffers: Option<&FxGpuBuffers>,
    bind_group: bool,
    vertices_uploaded: bool,
    indices_uploaded: bool,
) -> (step: DrawStep)
    ensures
        step == match buffers {
            Some(buffers) => if bind_group && vertices_uploaded && indices_uploaded {
                DrawStep::Draw { indices: buffers.index_count }
            } else {
                DrawStep::Skip
            },
            None => DrawStep::Skip,
        },
{
    match buffers {
        Some(buffers) => {
            if bind_group && vertices_uploaded && indices_uploaded {
                DrawStep::Draw { indices: buffers.index_count }
            } else {
                DrawStep::Skip
            }
        },
        None => DrawStep::Skip,
    }
}

/// A pipeline is made for the format of its view: the first target takes it
/// whenever it is used, however many targets there are, and no target is added,
/// removed or changed besides.
pub proof fn law_first_target_takes_the_format<F>(targets: Seq<Option<F>>, format: F)
    ensures
        retargeted(targets, format).len() == targets.len(),
        1 <= targets.len() && targets[0] is Some ==> retargeted(targets, format)[0] == Some(format),
        1 <= targets.len() && targets[0] is None ==> retargeted(targets, format)[0] is None,
        forall|i: int|
            1 <= i < targets.len() ==> #[trigger] retargeted(targets, format)[i] == targets[i],
{
}

/// Fitting a pipeline to one view and then to another is fitting it to the
/// other.
pub proof fn law_only_the_last_view_counts<F>(targets: Seq<Option<F>>, first: F, second: F)
    ensures
        retargeted(retargeted(targets, first), second) == retargeted(targets, second),
{
    assert(retargeted(retargeted(targets, first), second) =~= retargeted(targets, second));
}

/// A view takes the number of samples that its multisampling is named after.
pub proof fn law_samples_by_name()
    ensures
        Msaa::Off.count() == 1,
        Msaa::Sample2.count() == 2,
        Msaa::Sample4.count() == 4,
        Msaa::Sample8.count() == 8,
{
}

/// Room for three indices to a vertex is reserved, and no other amount.
pub proof fn law_three_indices_to_a_vertex(vertex_capacity: int)
    ensures
        index_room(vertex_capacity) == vertex_capacity + vertex_capacity + vertex_capacity,
{
}

/// The steps of queueing. The lookup decides by what it found and by whether
/// there is anything to draw, and asks for the pipeline of the view's own key;
/// then the pipeline that was made is the one that is put in.
pub proof fn law_queueing_step_by_step<K, P>(
    pipelines: bool,
    phase: bool,
    index_count: u32,
    key: K,
    pipeline: P,
)
    ensures
        ({
            let looked = queue_rule(
                QueueState::Lookup,
                QueueEvent::<P>::LookedUp { pipelines, phase },
                index_count,
                key,
            );
            &&& !pipelines || !phase ==> looked.0 is Done && looked.1 is Nothing
            &&& pipelines && phase && index_count == 0 ==> looked.0 is Done && looked.1 is Remove
            &&& pipelines && phase && index_count > 0 ==> looked.0 is Specialize && looked.1
                == QueueAction::<K, P>::RemoveAndSpecialize(key)
        }),
        queue_rule(
            QueueState::Specialize,
            QueueEvent::Specialized(Some(pipeline)),
            index_count,
            key,
        ) == (QueueState::Done, QueueAction::<K, P>::Put(pipeline)),
        queue_rule(
            QueueState::Specialize,
            QueueEvent::<P>::Specialized(None),
            index_count,
            key,
        ) == (QueueState::Done, QueueAction::<K, P>::Nothing),
{
}

/// An event out of turn does nothing and ends the queueing: whatever comes after
/// the end, a pipeline before the lookup, a lookup in place of the pipeline.
pub proof fn law_events_out_of_turn_do_nothing<K, P>(
    state: QueueState,
    event: QueueEvent<P>,
    index_count: u32,
    key: K,
)
    requires
        match state {
            QueueState::Lookup => event is Specialized,
            QueueState::Specialize => event is LookedUp,
            QueueState::Done => true,
        },
    ensures
        queue_rule(state, event, index_count, key) == (
            QueueState::Done,
            QueueAction::<K, P>::Nothing,
        ),
{
}

/// The view's uniforms are bound first, at an offset of the view's own, for the
/// vertex stage; the atlas and its filtering sampler follow for the fragment
/// stage.
pub proof fn law_bindings_in_order()
    ensures
        binding_table().len() == 3,
        forall|i: int| 0 <= i < 3 ==> (#[trigger] binding_table()[i]).binding == i,
        binding_table()[0].stage is Vertex,
        binding_table()[1].stage is Fragment,
        binding_table()[2].stage is Fragment,
        binding_table()[0].resource == (Resource::ViewUniforms { dynamic_offset: true }),
        binding_table()[1].resource == (Resource::AtlasTexture {
            filterable: true,
            multisampled: false,
        }),
        binding_table()[2].resource == (Resource::AtlasSampler { filtering: true }),
        attribute_table().len() == 3,
        forall|i: int| 0 <= i < 3 ==> (#[trigger] attribute_table()[i]).location == i,
{
}

} // verus!
