//! Buffers, pipeline and draws.

use bevy_particles_and_trails::{
    bind_group_slots, bind_group_step, buffers_step, draw_step, drawable, fixed_state, queue_step,
    specialize, vertex_layout, BindMatch, BindStep, BufferStep, DepthTest, DrawStep, FxGpuBuffers,
    FxKey, FxScratch, Msaa, Particle, PipelineDraft, Quad, QueueAction, QueueEvent, QueueState, Rect,
    Resource, Ribbon, RibbonPoint, Scalar, Span, SpriteAnim, Stage, Trail, Vec2, Vec3,
};

fn s(x: f32) -> Scalar {
    Scalar::from_bits(x.to_bits())
}

fn unit_quad() -> Quad {
    let corner = |x: f32, y: f32| Vec3 { x: s(x), y: s(y), z: s(7.0) };
    Quad {
        corners: [corner(0.0, 0.0), corner(1.0, 0.0), corner(1.0, 1.0), corner(0.0, 1.0)],
        uv: Rect { min: Vec2 { x: s(0.0), y: s(0.0) }, max: Vec2 { x: s(0.5), y: s(0.5) } },
    }
}

#[test]
fn buffers_hold_the_words_of_the_frame() {
    let mut scratch = FxScratch::with_capacity(8);
    scratch.emit_particle(&Particle::default(), &unit_quad());
    let mut buffers = FxGpuBuffers::new();
    assert!(buffers.vertices.raw.is_empty() && buffers.indices.raw.is_empty());
    assert!(buffers.refill(&scratch));
    assert_eq!(buffers.index_count, 6);
    assert_eq!(buffers.indices.raw.values(), &vec![0, 1, 2, 0, 2, 3]);
    assert_eq!(buffers.vertices.raw.len(), 4);
    let one: u32 = 1.0f32.to_bits();
    assert_eq!(
        buffers.vertices.raw.values()[2],
        [one, one, 7.0f32.to_bits(), 0.5f32.to_bits(), 0, one, one, one, one]
    );
}

#[test]
fn staged_bytes_are_where_the_layout_says() {
    let mut scratch = FxScratch::with_capacity(4);
    let mut particle = Particle::default();
    particle.tint.red = s(0.25);
    scratch.emit_particle(&particle, &unit_quad());
    let mut buffers = FxGpuBuffers::new();
    buffers.refill(&scratch);
    let bytes: &[u8] = bytemuck::cast_slice(buffers.vertices.raw.values());
    let layout = vertex_layout();
    assert_eq!(bytes.len() as u64, 4 * layout.stride);
    for (k, vertex) in scratch.vertices.iter().enumerate() {
        let start = k * layout.stride as usize;
        let first = |attribute: usize| {
            let offset = start + layout.attributes[attribute].offset as usize;
            let word: f32 = bytemuck::pod_read_unaligned(&bytes[offset..offset + 4]);
            s(word)
        };
        assert_eq!(first(0), vertex.position.x);
        assert_eq!(first(1), vertex.uv.x);
        assert_eq!(first(2), s(0.25));
    }
}

#[test]
fn refilling_replaces_the_last_frame() {
    let mut scratch = FxScratch::with_capacity(8);
    scratch.emit_particle(&Particle::default(), &unit_quad());
    scratch.emit_particle(&Particle::default(), &unit_quad());
    let mut buffers = FxGpuBuffers::new();
    assert!(buffers.refill(&scratch));
    assert_eq!(buffers.index_count, 12);
    scratch.vertices.clear();
    scratch.indices.clear();
    assert!(!buffers.refill(&scratch));
    assert_eq!(buffers.index_count, 0);
    assert!(buffers.vertices.raw.is_empty() && buffers.indices.raw.is_empty());
}

#[test]
fn buffers_are_made_once() {
    assert_eq!(buffers_step(None, false), BufferStep::Wait);
    assert_eq!(buffers_step(None, true), BufferStep::Wait);
    assert_eq!(
        buffers_step(Some(8192), false),
        BufferStep::Create { vertices: 8192, indices: 3 * 8192 }
    );
    assert_eq!(buffers_step(Some(8192), true), BufferStep::Refill);
}

#[test]
fn a_buffer_full_of_ribbon_fits_the_reserved_room() {
    let n = 32;
    let mut scratch = FxScratch::with_capacity(2 * n);
    let tick = Span { secs: 0, nanos: 1 };
    let mut trail = Trail::new(SpriteAnim::full(), n, tick, s(1.0));
    for i in 0..n {
        trail.sample(unit_quad().corners[0], s(i as f32), tick);
    }
    let point = RibbonPoint {
        left: unit_quad().corners[0],
        right: unit_quad().corners[1],
        u: s(0.0),
    };
    scratch.emit_trail(&trail, &Ribbon { points: vec![point; n], uv: unit_quad().uv });
    assert_eq!(scratch.vertices.len(), 2 * n);
    assert_eq!(scratch.indices.len(), 6 * (n - 1));
    match buffers_step(Some(scratch.vertex_capacity), false) {
        BufferStep::Create { vertices, indices } => {
            assert!(scratch.vertices.len() <= vertices);
            assert!(scratch.indices.len() <= indices);
        }
        step => panic!("{step:?}"),
    }
}

#[test]
fn bind_group_is_rebuilt_only_when_its_parts_change() {
    let same = BindMatch { same_view_buffer: true, same_image: true };
    let moved = BindMatch { same_view_buffer: false, same_image: true };
    let reloaded = BindMatch { same_view_buffer: true, same_image: false };
    assert_eq!(bind_group_step(true, true, true, true, None), BindStep::Create);
    assert_eq!(bind_group_step(true, true, true, true, Some(same)), BindStep::Keep);
    assert_eq!(bind_group_step(true, true, true, true, Some(moved)), BindStep::Create);
    assert_eq!(bind_group_step(true, true, true, true, Some(reloaded)), BindStep::Create);
    assert_eq!(bind_group_step(false, true, true, true, None), BindStep::Wait);
    assert_eq!(bind_group_step(true, false, true, true, None), BindStep::Wait);
    assert_eq!(bind_group_step(true, true, false, true, None), BindStep::Wait);
    assert_eq!(bind_group_step(true, true, true, false, Some(moved)), BindStep::Wait);
}

/// A phase of a view: its draws of effects by pipeline, and other entries.
struct Phase {
    ours: Vec<u32>,
    others: Vec<&'static str>,
}

/// Queues the draw of a view as the render side does, and returns the keys that
/// pipelines were asked for.
fn queue(
    phase: &mut Option<Phase>,
    pipelines: bool,
    index_count: u32,
    specialized: Option<u32>,
) -> Vec<&'static str> {
    let mut state = QueueState::Lookup;
    let mut event = QueueEvent::LookedUp { pipelines, phase: phase.is_some() };
    let mut asked = Vec::new();
    while state != QueueState::Done {
        let (next, action) = queue_step(state, event, index_count, "hdr");
        match action {
            QueueAction::Nothing => {}
            QueueAction::Remove => phase.as_mut().unwrap().ours.clear(),
            QueueAction::RemoveAndSpecialize(key) => {
                phase.as_mut().unwrap().ours.clear();
                asked.push(key);
            }
            QueueAction::Put(pipeline) => phase.as_mut().unwrap().ours.push(pipeline),
        }
        state = next;
        event = QueueEvent::Specialized(specialized);
    }
    asked
}

#[test]
fn a_view_is_queued_while_there_is_something_to_draw() {
    let mut phase = Some(Phase { ours: vec![3, 4], others: vec!["mesh"] });
    for _ in 0..3 {
        assert_eq!(queue(&mut phase, true, 6, Some(8)), vec!["hdr"]);
        assert_eq!(phase.as_ref().unwrap().ours, vec![8], "draws must not pile up");
    }
    assert_eq!(queue(&mut phase, true, 6, None), vec!["hdr"]);
    assert!(phase.as_ref().unwrap().ours.is_empty());
    queue(&mut phase, true, 6, Some(8));
    assert!(queue(&mut phase, true, 0, Some(8)).is_empty());
    assert!(phase.as_ref().unwrap().ours.is_empty());
    assert_eq!(phase.unwrap().others, vec!["mesh"]);
}

#[test]
fn without_pipelines_no_phase_is_touched() {
    let mut phase = Some(Phase { ours: vec![3], others: Vec::new() });
    assert!(queue(&mut phase, false, 6, Some(8)).is_empty());
    assert!(queue(&mut phase, false, 0, Some(8)).is_empty());
    assert_eq!(phase.unwrap().ours, vec![3]);
    let mut missing = None;
    assert!(queue(&mut missing, true, 6, Some(8)).is_empty());
    assert!(missing.is_none());
    let (state, action) =
        queue_step(QueueState::Done, QueueEvent::Specialized(Some(8)), 6, "hdr");
    assert!(state == QueueState::Done && matches!(action, QueueAction::Nothing));
}

#[test]
fn draws_wait_for_their_parts() {
    let mut buffers = FxGpuBuffers::new();
    buffers.index_count = 18;
    assert_eq!(drawable(Some(&buffers)), 18);
    assert_eq!(drawable(None), 0);
    assert_eq!(draw_step(Some(&buffers), true, true, true), DrawStep::Draw { indices: 18 });
    assert_eq!(draw_step(None, true, true, true), DrawStep::Skip);
    assert_eq!(draw_step(Some(&buffers), false, true, true), DrawStep::Skip);
    assert_eq!(draw_step(Some(&buffers), true, false, true), DrawStep::Skip);
    assert_eq!(draw_step(Some(&buffers), true, true, false), DrawStep::Skip);
}

#[test]
fn pipelines_fit_the_view() {
    let key = || FxKey { msaa: Msaa::Sample4, format: "hdr" };
    let mut draft = PipelineDraft { samples: 1, targets: Some(vec![Some("ldr"), Some("mask")]) };
    specialize(&mut draft, key());
    assert_eq!(draft.samples, 4);
    assert_eq!(draft.targets, Some(vec![Some("hdr"), Some("mask")]));
    let mut unused = PipelineDraft { samples: 1, targets: Some(vec![None, Some("mask")]) };
    specialize(&mut unused, key());
    assert_eq!(unused.targets, Some(vec![None, Some("mask")]));
    let mut bare = PipelineDraft { samples: 1, targets: Some(Vec::new()) };
    specialize(&mut bare, key());
    assert_eq!(bare.targets, Some(Vec::new()));
    let mut depth_only = PipelineDraft { samples: 1, targets: None };
    specialize(&mut depth_only, key());
    assert_eq!((depth_only.samples, depth_only.targets), (4, None));
}

#[test]
fn samples_per_pixel() {
    let all = [Msaa::Off, Msaa::Sample2, Msaa::Sample4, Msaa::Sample8];
    assert_eq!(all.map(|msaa| msaa.samples()), [1, 2, 4, 8]);
}

#[test]
fn layouts_mirror_the_vertex() {
    let layout = vertex_layout();
    assert_eq!(layout.stride, 36);
    let attributes: Vec<(u64, u64, u32)> =
        layout.attributes.iter().map(|a| (a.words, a.offset, a.location)).collect();
    assert_eq!(attributes, vec![(3, 0, 0), (2, 12, 1), (4, 20, 2)]);
    let slots = bind_group_slots();
    assert_eq!((slots[0].binding, slots[0].stage), (0, Stage::Vertex));
    assert_eq!(slots[0].resource, Resource::ViewUniforms { dynamic_offset: true });
    assert_eq!((slots[1].binding, slots[1].stage), (1, Stage::Fragment));
    assert_eq!(
        slots[1].resource,
        Resource::AtlasTexture { filterable: true, multisampled: false }
    );
    assert_eq!((slots[2].binding, slots[2].stage), (2, Stage::Fragment));
    assert_eq!(slots[2].resource, Resource::AtlasSampler { filtering: true });
    let state = fixed_state();
    assert!(state.depth_write && !state.blend);
    assert_eq!(state.depth_test, DepthTest::GreaterEqual);
}
