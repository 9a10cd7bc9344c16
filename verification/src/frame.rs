//! What a frame looks like: quads of particles and strips of ribbons, and who
//! gets drawn when there is not room for all.
use vstd::prelude::*;

use crate::particles::{Particle, ParticleId};
use crate::scalar::{LinearRgba, Rect, Scalar, Vec2, Vec3};
use crate::trail::Trail;

verus! {

/// One vertex of the shared buffer.
#[derive(Clone, Copy, PartialEq, Eq, Structural, Debug)]
pub struct FxVertex {
    pub position: Vec3,
    pub uv: Vec2,
    pub color: LinearRgba,
}

/// Where a particle is drawn: the corners of its quad in the order
/// bottom-left, bottom-right, top-right, top-left, and its region of the atlas.
#[derive(Clone, Copy)]
pub struct Quad {
    pub corners: [Vec3; 4],
    pub uv: Rect,
}

/// Where one point of a trail is drawn: the two edges of the ribbon there, and
/// how far along the atlas region it is.
#[derive(Clone, Copy, PartialEq, Eq, Structural, Debug)]
pub struct RibbonPoint {
    pub left: Vec3,
    pub right: Vec3,
    pub u: Scalar,
}

/// Where a trail is drawn: its points, the tail first, and its region of the
/// atlas.
pub struct Ribbon {
    pub points: Vec<RibbonPoint>,
    pub uv: Rect,
}

/// The geometry of a frame: vertices, and triangles as triples of indices into
/// them.
#[verifier::ext_equal]
pub struct Frame {
    pub vertices: Seq<FxVertex>,
    pub indices: Seq<u32>,
}

/// Number of vertices that 32-bit indices can tell apart.
pub open spec fn index_limit() -> int {
    0x1_0000_0000
}

/// Whether corner `k` of a quad is on its right side.
pub open spec fn on_right(k: int) -> bool {
    k == 1 || k == 2
}

/// Whether corner `k` of a quad is on its top side.
pub open spec fn on_top(k: int) -> bool {
    k == 2 || k == 3
}

/// Vertex `k` of a particle's quad. The top of the quad is the top of the
/// sprite, which is the smaller `v`.
pub open spec fn quad_vertex(quad: Quad, tint: LinearRgba, k: int) -> FxVertex {
    FxVertex {
        position: quad.corners@[k],
        uv: Vec2 {
            x: if on_right(k) {
                quad.uv.max.x
            } else {
                quad.uv.min.x
            },
            y: if on_top(k) {
                quad.uv.min.y
            } else {
                quad.uv.max.y
            },
        },
        color: tint,
    }
}

/// The four vertices of a particle.
pub open spec fn quad_vertices(quad: Quad, tint: LinearRgba) -> Seq<FxVertex> {
    Seq::new(4, |k: int| quad_vertex(quad, tint, k))
}

/// The two triangles of a quad whose first vertex is `base`.
pub open spec fn quad_indices(base: int) -> Seq<u32> {
    seq![
        base as u32,
        (base + 1) as u32,
        (base + 2) as u32,
        base as u32,
        (base + 2) as u32,
        (base + 3) as u32,
    ]
}

/// One of the two vertices of a point of a ribbon.
pub open spec fn edge_vertex(
    point: RibbonPoint,
    uv: Rect,
    tint: LinearRgba,
    right: bool,
) -> FxVertex {
    FxVertex {
        position: if right {
            point.right
        } else {
            point.left
        },
        uv: Vec2 {
            x: point.u,
            y: if right {
                uv.max.y
            } else {
                uv.min.y
            },
        },
        color: tint,
    }
}

/// The vertices of a ribbon: the left and the right one of each point.
pub open spec fn ribbon_vertices(
    points: Seq<RibbonPoint>,
    uv: Rect,
    tint: LinearRgba,
) -> Seq<FxVertex> {
    Seq::new(2 * points.len(), |k: int| edge_vertex(points[k / 2], uv, tint, k % 2 == 1))
}

/// The two triangles between a point of a ribbon, whose left vertex is `q`,
/// and the next point.
pub open spec fn segment_indices(q: int) -> Seq<u32> {
    seq![
        q as u32,
        (q + 1) as u32,
        (q + 2) as u32,
        (q + 1) as u32,
        (q + 3) as u32,
        (q + 2) as u32,
    ]
}

/// The triangles of the first `segments` segments of a ribbon whose first
/// vertex is `base`.
pub open spec fn ribbon_indices(base: int, segments: int) -> Seq<u32> {
    Seq::new(
        (6 * segments) as nat,
        |k: int| segment_indices(base + 2 * (k / 6))[k % 6],
    )
}

/// Whether a trail of `points` points is drawn into a frame that holds `used`
/// vertices: it is a ribbon at all, and all of it fits.
pub open spec fn trail_fits(capacity: int, used: int, points: int) -> bool {
    points >= 2 && used + 2 * points <= capacity
}

/// Number of vertices that the trails take, drawn one after the other.
pub open spec fn trails_used(capacity: int, trails: Seq<&Trail>) -> int
    decreases trails.len(),
{
    if trails.len() == 0 {
        0
    } else {
        let used = trails_used(capacity, trails.drop_last());
        let points = trails.last()@.len() as int;
        if trail_fits(capacity, used, points) {
            used + 2 * points
        } else {
            used
        }
    }
}

/// Whether the trail at `i` is drawn.
pub open spec fn trail_drawn(capacity: int, trails: Seq<&Trail>, i: int) -> bool {
    trail_fits(capacity, trails_used(capacity, trails.take(i)), trails[i]@.len() as int)
}

/// Whether the ribbons of the drawn trails have a place for every point.
pub open spec fn ribbons_match(
    capacity: int,
    trails: Seq<&Trail>,
    ribbons: Seq<Ribbon>,
) -> bool {
    forall|i: int|
        0 <= i < trails.len() && #[trigger] trail_drawn(capacity, trails, i)
            ==> ribbons[i].points@.len() == trails[i]@.len()
}

/// Number of particles drawn into what `used` vertices leave: as many as fit.
pub open spec fn particles_drawn(capacity: int, used: int, live: int) -> int {
    if 4 * live <= capacity - used {
        live
    } else {
        (capacity - used) / 4
    }
}

/// Number of vertices of the whole frame.
pub open spec fn frame_len(capacity: int, trails: Seq<&Trail>, live: int) -> int {
    let used = trails_used(capacity, trails);
    used + 4 * particles_drawn(capacity, used, live)
}

impl Frame {
    pub open spec fn empty() -> Frame {
        Frame { vertices: Seq::empty(), indices: Seq::empty() }
    }

    /// The frame with a quad added.
    pub open spec fn with_quad(self, quad: Quad, tint: LinearRgba) -> Frame {
        Frame {
            vertices: self.vertices + quad_vertices(quad, tint),
            indices: self.indices + quad_indices(self.vertices.len() as int),
        }
    }

    /// The frame with a ribbon added.
    pub open spec fn with_ribbon(
        self,
        points: Seq<RibbonPoint>,
        uv: Rect,
        tint: LinearRgba,
    ) -> Frame {
        Frame {
            vertices: self.vertices + ribbon_vertices(points, uv, tint),
            indices: self.indices + ribbon_indices(self.vertices.len() as int, points.len() - 1),
        }
    }

    /// The frame with a trail added, if it fits.
    pub open spec fn with_trail(self, capacity: int, trail: &Trail, ribbon: Ribbon) -> Frame {
        if trail_fits(capacity, self.vertices.len() as int, trail@.len() as int) {
            self.with_ribbon(ribbon.points@, ribbon.uv, trail.tint)
        } else {
            self
        }
    }

    /// A frame of trails alone.
    pub open spec fn of_trails(
        capacity: int,
        trails: Seq<&Trail>,
        ribbons: Seq<Ribbon>,
    ) -> Frame
        decreases trails.len(),
    {
        if trails.len() == 0 {
            Frame::empty()
        } else {
            Frame::of_trails(capacity, trails.drop_last(), ribbons).with_trail(
                capacity,
                trails.last(),
                ribbons[trails.len() - 1],
            )
        }
    }

    /// The frame with the `count` newest particles added, the newest first.
    /// `quads` are theirs, in that order.
    pub open spec fn with_newest(
        self,
        live: Seq<(ParticleId, Particle)>,
        quads: Seq<Quad>,
        count: int,
    ) -> Frame
        decreases count,
    {
        if count <= 0 {
            self
        } else {
            self.with_newest(live, quads, count - 1).with_quad(
                quads[count - 1],
                live[live.len() - count].1.tint,
            )
        }
    }

    /// The whole frame: the trails that fit, then the newest particles that
    /// still fit.
    pub open spec fn of(
        capacity: int,
        trails: Seq<&Trail>,
        ribbons: Seq<Ribbon>,
        live: Seq<(ParticleId, Particle)>,
        quads: Seq<Quad>,
    ) -> Frame {
        let used = trails_used(capacity, trails);
        Frame::of_trails(capacity, trails, ribbons).with_newest(
            live,
            quads,
            particles_drawn(capacity, used, live.len() as int),
        )
    }

    /// The indices make whole triangles of vertices that are there, and are at
    /// most three to a vertex.
    pub open spec fn wf(self) -> bool {
        &&& forall|k: int|
            0 <= k < self.indices.len() ==> (#[trigger] self.indices[k]) < self.vertices.len()
        &&& self.indices.len() % 3 == 0
        &&& self.indices.len() <= 3 * self.vertices.len()
    }
}

/// The trails never take more than there is.
pub(crate) proof fn lemma_used_is_bounded(capacity: int, trails: Seq<&Trail>)
    requires
        0 <= capacity,
    ensures
        0 <= trails_used(capacity, trails) <= capacity,
    decreases trails.len(),
{
    if trails.len() > 0 {
        lemma_used_is_bounded(capacity, trails.drop_last());
    }
}

/// The first trails take no more than all of them.
pub(crate) proof fn lemma_used_grows(capacity: int, trails: Seq<&Trail>, i: int)
    requires
        0 <= i <= trails.len(),
    ensures
        trails_used(capacity, trails.take(i)) <= trails_used(capacity, trails),
    decreases trails.len(),
{
    if i < trails.len() {
        assert(trails.drop_last().take(i) =~= trails.take(i));
        lemma_used_grows(capacity, trails.drop_last(), i);
    } else {
        assert(trails.take(i) =~= trails);
    }
}

/// A quad's triangles use the quad's own vertices.
pub(crate) proof fn lemma_quad_keeps_wf(frame: Frame, quad: Quad, tint: LinearRgba)
    requires
        frame.wf(),
        frame.vertices.len() + 4 <= index_limit(),
    ensures
        frame.with_quad(quad, tint).wf(),
{
    let after = frame.with_quad(quad, tint);
    let base = frame.vertices.len() as int;
    assert forall|k: int| 0 <= k < after.indices.len() implies (#[trigger] after.indices[k])
        < after.vertices.len() by {
        if k < frame.indices.len() {
            assert(after.indices[k] == frame.indices[k]);
        } else {
            assert(after.indices[k] == quad_indices(base)[k - frame.indices.len()]);
        }
    }
}

/// A ribbon's triangles use the ribbon's own vertices.
pub(crate) proof fn lemma_ribbon_keeps_wf(
    frame: Frame,
    points: Seq<RibbonPoint>,
    uv: Rect,
    tint: LinearRgba,
)
    requires
        frame.wf(),
        points.len() >= 2,
        frame.vertices.len() + 2 * points.len() <= index_limit(),
    ensures
        frame.with_ribbon(points, uv, tint).wf(),
{
    let after = frame.with_ribbon(points, uv, tint);
    let base = frame.vertices.len() as int;
    let segments = points.len() - 1;
    assert forall|k: int| 0 <= k < after.indices.len() implies (#[trigger] after.indices[k])
        < after.vertices.len() by {
        if k < frame.indices.len() {
            assert(after.indices[k] == frame.indices[k]);
        } else {
            let j = k - frame.indices.len();
            assert(after.indices[k] == ribbon_indices(base, segments)[j]);
            assert(after.indices[k] == segment_indices(base + 2 * (j / 6))[j % 6]);
        }
    }
}

/// Dropping the last trail leaves the ribbons of the others matching.
proof fn lemma_ribbons_match_prefix(capacity: int, trails: Seq<&Trail>, ribbons: Seq<Ribbon>)
    requires
        trails.len() > 0,
        ribbons_match(capacity, trails, ribbons),
    ensures
        ribbons_match(capacity, trails.drop_last(), ribbons),
{
    let fewer = trails.drop_last();
    assert forall|i: int| 0 <= i < fewer.len() && #[trigger] trail_drawn(
        capacity,
        fewer,
        i,
    ) implies ribbons[i].points@.len() == fewer[i]@.len() by {
        assert(fewer.take(i) =~= trails.take(i));
        assert(trail_drawn(capacity, trails, i));
    }
}

/// A frame of trails holds the vertices that the trails take.
proof fn lemma_trails_len(capacity: int, trails: Seq<&Trail>, ribbons: Seq<Ribbon>)
    requires
        ribbons_match(capacity, trails, ribbons),
    ensures
        Frame::of_trails(capacity, trails, ribbons).vertices.len() == trails_used(
            capacity,
            trails,
        ),
    decreases trails.len(),
{
    if trails.len() > 0 {
        let last = trails.len() - 1;
        lemma_ribbons_match_prefix(capacity, trails, ribbons);
        lemma_trails_len(capacity, trails.drop_last(), ribbons);
        assert(trails.take(last) =~= trails.drop_last());
        if trail_fits(
            capacity,
            trails_used(capacity, trails.drop_last()),
            trails.last()@.len() as int,
        ) {
            assert(trail_drawn(capacity, trails, last));
        }
    }
}

/// Particles come after what is there, four vertices and six indices each.
proof fn lemma_newest_layout(
    frame: Frame,
    live: Seq<(ParticleId, Particle)>,
    quads: Seq<Quad>,
    count: int,
)
    requires
        0 <= count,
    ensures
        ({
            let after = frame.with_newest(live, quads, count);
            let used = frame.vertices.len();
            &&& after.vertices.len() == used + 4 * count
            &&& after.vertices.take(used as int) == frame.vertices
            &&& after.indices.len() == frame.indices.len() + 6 * count
            &&& after.indices.take(frame.indices.len() as int) == frame.indices
            &&& forall|k: int|
                0 <= k < count ==> after.vertices.subrange(used + 4 * k, used + 4 * k + 4)
                    == #[trigger] quad_vertices(quads[k], live[live.len() - 1 - k].1.tint)
        }),
    decreases count,
{
    let after = frame.with_newest(live, quads, count);
    let used = frame.vertices.len();
    if count > 0 {
        lemma_newest_layout(frame, live, quads, count - 1);
        let before = frame.with_newest(live, quads, count - 1);
        assert(after.vertices.take(used as int) =~= before.vertices.take(used as int));
        assert(after.indices.take(frame.indices.len() as int) =~= before.indices.take(
            frame.indices.len() as int,
        ));
        assert forall|k: int| 0 <= k < count implies after.vertices.subrange(
            used + 4 * k,
            used + 4 * k + 4,
        ) == #[trigger] quad_vertices(quads[k], live[live.len() - 1 - k].1.tint) by {
            if k < count - 1 {
                assert(after.vertices.subrange(used + 4 * k, used + 4 * k + 4)
                    =~= before.vertices.subrange(used + 4 * k, used + 4 * k + 4));
            } else {
                assert(after.vertices.subrange(used + 4 * k, used + 4 * k + 4)
                    =~= quad_vertices(quads[k], live[live.len() - 1 - k].1.tint));
            }
        }
    } else {
        assert(after.vertices.take(used as int) =~= frame.vertices);
        assert(after.indices.take(frame.indices.len() as int) =~= frame.indices);
    }
}

/// The budget is kept: a frame never holds more vertices than the capacity.
pub proof fn law_budget_is_kept(
    capacity: int,
    trails: Seq<&Trail>,
    ribbons: Seq<Ribbon>,
    live: Seq<(ParticleId, Particle)>,
    quads: Seq<Quad>,
)
    requires
        0 <= capacity,
        ribbons_match(capacity, trails, ribbons),
    ensures
        Frame::of(capacity, trails, ribbons, live, quads).vertices.len() == frame_len(
            capacity,
            trails,
            live.len() as int,
        ),
        Frame::of(capacity, trails, ribbons, live, quads).vertices.len() <= capacity,
{
    let used = trails_used(capacity, trails);
    lemma_used_is_bounded(capacity, trails);
    lemma_trails_len(capacity, trails, ribbons);
    lemma_newest_layout(
        Frame::of_trails(capacity, trails, ribbons),
        live,
        quads,
        particles_drawn(capacity, used, live.len() as int),
    );
}

/// Trails win: whatever particles there are, the frame starts with the trails
/// as they are drawn without any.
pub proof fn law_trails_win(
    capacity: int,
    trails: Seq<&Trail>,
    ribbons: Seq<Ribbon>,
    live: Seq<(ParticleId, Particle)>,
    quads: Seq<Quad>,
)
    requires
        0 <= capacity,
    ensures
        ({
            let whole = Frame::of(capacity, trails, ribbons, live, quads);
            let bare = Frame::of(capacity, trails, ribbons, Seq::empty(), quads);
            &&& whole.vertices.take(bare.vertices.len() as int) == bare.vertices
            &&& whole.indices.take(bare.indices.len() as int) == bare.indices
        }),
{
    let used = trails_used(capacity, trails);
    lemma_used_is_bounded(capacity, trails);
    let frame = Frame::of_trails(capacity, trails, ribbons);
    lemma_newest_layout(
        frame,
        live,
        quads,
        particles_drawn(capacity, used, live.len() as int),
    );
    assert(Frame::of(capacity, trails, ribbons, Seq::empty(), quads) == frame);
}

/// The newest particles win: the drawn ones are the last `drawn` of the list,
/// the newest of them first, and when not all are drawn there was no room for
/// one more.
pub proof fn law_newest_particles_win(
    capacity: int,
    trails: Seq<&Trail>,
    ribbons: Seq<Ribbon>,
    live: Seq<(ParticleId, Particle)>,
    quads: Seq<Quad>,
)
    requires
        0 <= capacity,
        ribbons_match(capacity, trails, ribbons),
    ensures
        ({
            let whole = Frame::of(capacity, trails, ribbons, live, quads);
            let used = trails_used(capacity, trails);
            let drawn = particles_drawn(capacity, used, live.len() as int);
            &&& 0 <= drawn <= live.len()
            &&& drawn < live.len() ==> capacity < whole.vertices.len() + 4
            &&& forall|k: int|
                0 <= k < drawn ==> whole.vertices.subrange(used + 4 * k, used + 4 * k + 4)
                    == #[trigger] quad_vertices(quads[k], live[live.len() - 1 - k].1.tint)
        }),
{
    let used = trails_used(capacity, trails);
    lemma_used_is_bounded(capacity, trails);
    lemma_trails_len(capacity, trails, ribbons);
    lemma_newest_layout(
        Frame::of_trails(capacity, trails, ribbons),
        live,
        quads,
        particles_drawn(capacity, used, live.len() as int),
    );
}

/// Bursts evict the oldest: when the buffer is full, spawning one more particle
/// puts it first among the particles, moves the others back by one, and the
/// oldest of those drawn before is gone.
pub proof fn law_bursts_evict_the_oldest(
    capacity: int,
    trails: Seq<&Trail>,
    ribbons: Seq<Ribbon>,
    live: Seq<(ParticleId, Particle)>,
    quads: Seq<Quad>,
    entry: (ParticleId, Particle),
    quad: Quad,
)
    requires
        0 <= capacity,
        ribbons_match(capacity, trails, ribbons),
        capacity < frame_len(capacity, trails, live.len() as int) + 4,
        0 < particles_drawn(capacity, trails_used(capacity, trails), live.len() as int)
            <= quads.len(),
    ensures
        ({
            let used = trails_used(capacity, trails);
            let before = Frame::of(capacity, trails, ribbons, live, quads).vertices;
            let after = Frame::of(
                capacity,
                trails,
                ribbons,
                live.push(entry),
                seq![quad] + quads,
            ).vertices;
            &&& after.len() == before.len()
            &&& after == before.take(used) + quad_vertices(quad, entry.1.tint)
                + before.subrange(used, before.len() - 4)
        }),
{
    let used = trails_used(capacity, trails);
    let more = live.push(entry);
    let more_quads = seq![quad] + quads;
    let drawn = particles_drawn(capacity, used, live.len() as int);
    lemma_used_is_bounded(capacity, trails);
    lemma_trails_len(capacity, trails, ribbons);
    let frame = Frame::of_trails(capacity, trails, ribbons);
    lemma_newest_layout(frame, live, quads, drawn);
    lemma_newest_layout(frame, more, more_quads, drawn);
    assert(particles_drawn(capacity, used, more.len() as int) == drawn);
    let before = Frame::of(capacity, trails, ribbons, live, quads).vertices;
    let after = Frame::of(capacity, trails, ribbons, more, more_quads).vertices;
    let expected = before.take(used) + quad_vertices(quad, entry.1.tint) + before.subrange(
        used,
        before.len() - 4,
    );
    assert forall|j: int| 0 <= j < after.len() implies after[j] == expected[j] by {
        if j < used {
            assert(after.take(used)[j] == before.take(used)[j]);
        } else {
            let k = (j - used) / 4;
            let r = (j - used) % 4;
            let slot = after.subrange(used + 4 * k, used + 4 * k + 4);
            assert(slot == quad_vertices(more_quads[k], more[more.len() - 1 - k].1.tint));
            assert(after[j] == slot[r]);
            if k > 0 {
                let old_slot = before.subrange(used + 4 * (k - 1), used + 4 * (k - 1) + 4);
                assert(old_slot == quad_vertices(
                    quads[k - 1],
                    live[live.len() - 1 - (k - 1)].1.tint,
                ));
                assert(before[j - 4] == old_slot[r]);
            }
        }
    }
    assert(after =~= expected);
}

/// Only what is drawn matters: frames built from different geometry are the
/// same if it agrees on the drawn trails and the drawn particles.
pub proof fn law_undrawn_geometry_is_not_used(
    capacity: int,
    trails: Seq<&Trail>,
    ribbons: Seq<Ribbon>,
    other_ribbons: Seq<Ribbon>,
    live: Seq<(ParticleId, Particle)>,
    quads: Seq<Quad>,
    other_quads: Seq<Quad>,
)
    requires
        0 <= capacity,
        ribbons_match(capacity, trails, ribbons),
        forall|i: int|
            0 <= i < trails.len() && #[trigger] trail_drawn(capacity, trails, i) ==> ribbons[i]
                == other_ribbons[i],
        forall|k: int|
            0 <= k < particles_drawn(
                capacity,
                trails_used(capacity, trails),
                live.len() as int,
            ) ==> #[trigger] quads[k] == other_quads[k],
    ensures
        Frame::of(capacity, trails, ribbons, live, quads) == Frame::of(
            capacity,
            trails,
            other_ribbons,
            live,
            other_quads,
        ),
{
    lemma_same_trails(capacity, trails, ribbons, other_ribbons);
    lemma_same_particles(
        Frame::of_trails(capacity, trails, ribbons),
        live,
        quads,
        other_quads,
        particles_drawn(capacity, trails_used(capacity, trails), live.len() as int),
    );
}

/// Ribbons that agree on the drawn trails give the same frame of trails.
proof fn lemma_same_trails(
    capacity: int,
    trails: Seq<&Trail>,
    ribbons: Seq<Ribbon>,
    other_ribbons: Seq<Ribbon>,
)
    requires
        ribbons_match(capacity, trails, ribbons),
        forall|i: int|
            0 <= i < trails.len() && #[trigger] trail_drawn(capacity, trails, i) ==> ribbons[i]
                == other_ribbons[i],
    ensures
        Frame::of_trails(capacity, trails, ribbons) == Frame::of_trails(
            capacity,
            trails,
            other_ribbons,
        ),
    decreases trails.len(),
{
    if trails.len() > 0 {
        let fewer = trails.drop_last();
        let last = trails.len() - 1;
        assert forall|i: int| 0 <= i < fewer.len() && #[trigger] trail_drawn(
            capacity,
            fewer,
            i,
        ) implies ribbons[i] == other_ribbons[i] by {
            assert(fewer.take(i) =~= trails.take(i));
            assert(trail_drawn(capacity, trails, i));
        }
        lemma_ribbons_match_prefix(capacity, trails, ribbons);
        lemma_same_trails(capacity, fewer, ribbons, other_ribbons);
        lemma_trails_len(capacity, fewer, ribbons);
        assert(trails.take(last) =~= fewer);
        if trail_fits(capacity, trails_used(capacity, fewer), trails.last()@.len() as int) {
            assert(trail_drawn(capacity, trails, last));
        }
    }
}

/// Quads that agree on the drawn particles draw the same.
proof fn lemma_same_particles(
    frame: Frame,
    live: Seq<(ParticleId, Particle)>,
    quads: Seq<Quad>,
    other_quads: Seq<Quad>,
    count: int,
)
    requires
        forall|k: int| 0 <= k < count ==> #[trigger] quads[k] == other_quads[k],
    ensures
        frame.with_newest(live, quads, count) == frame.with_newest(live, other_quads, count),
    decreases count,
{
    if count > 0 {
        lemma_same_particles(frame, live, quads, other_quads, count - 1);
        assert(quads[count - 1] == other_quads[count - 1]);
    }
}

/// A quad in the frame, vertex by vertex: bottom-left, bottom-right, top-right,
/// top-left, each at its corner of the quad and of the sprite, whose top is the
/// smaller `v`, and in the tint; then its two triangles. What was there stays.
pub proof fn law_quad_vertex_by_vertex(frame: Frame, quad: Quad, tint: LinearRgba)
    ensures
        ({
            let after = frame.with_quad(quad, tint);
            let base = frame.vertices.len() as int;
            let first = frame.indices.len() as int;
            &&& after.vertices.len() == base + 4
            &&& forall|k: int| 0 <= k < base ==> #[trigger] after.vertices[k] == frame.vertices[k]
            &&& after.vertices[base].position == quad.corners@[0]
            &&& after.vertices[base + 1].position == quad.corners@[1]
            &&& after.vertices[base + 2].position == quad.corners@[2]
            &&& after.vertices[base + 3].position == quad.corners@[3]
            &&& after.vertices[base].uv == (Vec2 { x: quad.uv.min.x, y: quad.uv.max.y })
            &&& after.vertices[base + 1].uv == (Vec2 { x: quad.uv.max.x, y: quad.uv.max.y })
            &&& after.vertices[base + 2].uv == (Vec2 { x: quad.uv.max.x, y: quad.uv.min.y })
            &&& after.vertices[base + 3].uv == (Vec2 { x: quad.uv.min.x, y: quad.uv.min.y })
            &&& after.vertices[base].color == tint
            &&& after.vertices[base + 1].color == tint
            &&& after.vertices[base + 2].color == tint
            &&& after.vertices[base + 3].color == tint
            &&& after.indices.len() == first + 6
            &&& forall|k: int| 0 <= k < first ==> #[trigger] after.indices[k] == frame.indices[k]
            &&& base + 4 <= 0x1_0000_0000 ==> {
                &&& after.indices[first] == base
                &&& after.indices[first + 1] == base + 1
                &&& after.indices[first + 2] == base + 2
                &&& after.indices[first + 3] == base
                &&& after.indices[first + 4] == base + 2
                &&& after.indices[first + 5] == base + 3
            }
        }),
{
}

/// A trail in the frame, vertex by vertex. It is drawn exactly if it has two
/// points and the capacity has room for two vertices to a point. Then every point
/// `i` gives a vertex at its left edge with the smaller `v` and one at its right
/// edge with the larger `v`, both with the point's `u` and the trail's tint, and,
/// unless it is the last, two triangles between its edges and those of the next
/// point. What was there stays.
pub proof fn law_ribbon_vertex_by_vertex(
    frame: Frame,
    capacity: int,
    trail: &Trail,
    ribbon: Ribbon,
    i: int,
)
    requires
        0 <= i < trail@.len(),
        trail@.len() >= 2 && frame.vertices.len() + 2 * trail@.len() <= capacity
            ==> ribbon.points@.len() == trail@.len(),
    ensures
        ({
            let after = frame.with_trail(capacity, trail, ribbon);
            let base = frame.vertices.len() as int;
            let first = frame.indices.len() as int;
            let n = trail@.len() as int;
            let point = ribbon.points@[i];
            let left = after.vertices[base + 2 * i];
            let right = after.vertices[base + 2 * i + 1];
            let q = base + 2 * i;
            let t = first + 6 * i;
            &&& !(n >= 2 && base + 2 * n <= capacity) ==> after == frame
            &&& n >= 2 && base + 2 * n <= capacity ==> {
                &&& after.vertices.len() == base + 2 * n
                &&& after.vertices.take(base) == frame.vertices
                &&& left.position == point.left
                &&& left.uv.x == point.u
                &&& left.uv.y == ribbon.uv.min.y
                &&& left.color == trail.tint
                &&& right.position == point.right
                &&& right.uv.x == point.u
                &&& right.uv.y == ribbon.uv.max.y
                &&& right.color == trail.tint
                &&& after.indices.len() == first + 6 * (n - 1)
                &&& after.indices.take(first) == frame.indices
                &&& i < n - 1 && base + 2 * n <= 0x1_0000_0000 ==> {
                    &&& after.indices[t] == q
                    &&& after.indices[t + 1] == q + 1
                    &&& after.indices[t + 2] == q + 2
                    &&& after.indices[t + 3] == q + 1
                    &&& after.indices[t + 4] == q + 3
                    &&& after.indices[t + 5] == q + 2
                }
            }
        }),
{
    let after = frame.with_trail(capacity, trail, ribbon);
    let base = frame.vertices.len() as int;
    let first = frame.indices.len() as int;
    let n = trail@.len() as int;
    if n >= 2 && base + 2 * n <= capacity {
        let vertices = ribbon_vertices(ribbon.points@, ribbon.uv, trail.tint);
        let indices = ribbon_indices(base, n - 1);
        assert(after.vertices.take(base) =~= frame.vertices);
        assert(after.indices.take(first) =~= frame.indices);
        assert((2 * i) / 2 == i && (2 * i) % 2 == 0);
        assert((2 * i + 1) / 2 == i && (2 * i + 1) % 2 == 1);
        assert(after.vertices[base + 2 * i] == vertices[2 * i]);
        assert(after.vertices[base + 2 * i + 1] == vertices[2 * i + 1]);
        if i < n - 1 {
            let one = segment_indices(base + 2 * i);
            assert((6 * i) / 6 == i && (6 * i) % 6 == 0);
            assert((6 * i + 1) / 6 == i && (6 * i + 1) % 6 == 1);
            assert((6 * i + 2) / 6 == i && (6 * i + 2) % 6 == 2);
            assert((6 * i + 3) / 6 == i && (6 * i + 3) % 6 == 3);
            assert((6 * i + 4) / 6 == i && (6 * i + 4) % 6 == 4);
            assert((6 * i + 5) / 6 == i && (6 * i + 5) % 6 == 5);
            assert(after.indices[first + 6 * i] == indices[6 * i]);
            assert(after.indices[first + 6 * i + 1] == indices[6 * i + 1]);
            assert(after.indices[first + 6 * i + 2] == indices[6 * i + 2]);
            assert(after.indices[first + 6 * i + 3] == indices[6 * i + 3]);
            assert(after.indices[first + 6 * i + 4] == indices[6 * i + 4]);
            assert(after.indices[first + 6 * i + 5] == indices[6 * i + 5]);
        }
    }
}

/// A trail of fewer than two points, or one that does not fit whole, leaves the
/// frame as it is.
pub proof fn law_no_part_of_a_trail_is_drawn(
    frame: Frame,
    capacity: int,
    trail: &Trail,
    ribbon: Ribbon,
)
    requires
        trail@.len() < 2 || capacity < frame.vertices.len() + 2 * trail@.len(),
    ensures
        frame.with_trail(capacity, trail, ribbon) == frame,
{
}

/// How much the trails take, in numbers: without trails nothing; and one more
/// trail takes two vertices to a point if it has two points and they fit, and
/// nothing otherwise. It is drawn in exactly that case, and in it alone.
pub proof fn law_budget_in_numbers(capacity: int, trails: Seq<&Trail>, trail: &Trail)
    ensures
        ({
            let used = trails_used(capacity, trails);
            let more = trails_used(capacity, trails.push(trail));
            let n = trail@.len();
            &&& trails.len() == 0 ==> used == 0
            &&& n >= 2 && used + 2 * n <= capacity ==> more == used + 2 * n
            &&& !(n >= 2 && used + 2 * n <= capacity) ==> more == used
            &&& trail_drawn(capacity, trails.push(trail), trails.len() as int) <==> n >= 2 && used
                + 2 * n <= capacity
        }),
{
    assert(trails.push(trail).drop_last() =~= trails);
    assert(trails.push(trail).take(trails.len() as int) =~= trails);
}

/// How many particles are drawn, in numbers: never more than there are or than
/// fit, four vertices each, and fewer than there are only where one more would
/// not fit.
pub proof fn law_particles_fill_the_room(capacity: int, used: int, live: int)
    requires
        0 <= used <= capacity,
        0 <= live,
    ensures
        0 <= particles_drawn(capacity, used, live) <= live,
        used + 4 * particles_drawn(capacity, used, live) <= capacity,
        particles_drawn(capacity, used, live) < live ==> used + 4 * particles_drawn(
            capacity,
            used,
            live,
        ) + 4 > capacity,
        index_limit() == 0xffff_ffff + 1,
{
}

/// Ribbons that have a place for every point of every trail that has room after
/// the trails before it are all that is needed.
pub(crate) proof fn lemma_matching_in_numbers(
    capacity: int,
    trails: Seq<&Trail>,
    ribbons: Seq<Ribbon>,
    quads: Seq<Quad>,
    m: int,
)
    requires
        0 <= capacity,
        0 <= m <= trails.len(),
        forall|j: int|
            #![trigger trails[j]]
            0 <= j < trails.len() && trails[j]@.len() >= 2 && Frame::of(
                capacity,
                trails.take(j),
                ribbons,
                Seq::empty(),
                quads,
            ).vertices.len() + 2 * trails[j]@.len() <= capacity ==> ribbons[j].points@.len()
                == trails[j]@.len(),
    ensures
        ribbons_match(capacity, trails.take(m), ribbons),
        Frame::of(capacity, trails.take(m), ribbons, Seq::empty(), quads) == Frame::of_trails(
            capacity,
            trails.take(m),
            ribbons,
        ),
        Frame::of_trails(capacity, trails.take(m), ribbons).vertices.len() == trails_used(
            capacity,
            trails.take(m),
        ),
    decreases m,
{
    let some = trails.take(m);
    if m > 0 {
        let last = m - 1;
        lemma_matching_in_numbers(capacity, trails, ribbons, quads, last);
        assert(some.drop_last() =~= trails.take(last));
        assert forall|i: int| 0 <= i < some.len() && #[trigger] trail_drawn(
            capacity,
            some,
            i,
        ) implies ribbons[i].points@.len() == some[i]@.len() by {
            assert(some.take(i) =~= trails.take(i));
            if i < last {
                assert(trails.take(last).take(i) =~= trails.take(i));
                assert(trail_drawn(capacity, trails.take(last), i));
            } else {
                assert(trails[last] == some[last]);
            }
        }
    }
    lemma_trails_len(capacity, some, ribbons);
    lemma_used_is_bounded(capacity, some);
}

/// The frame of the first trails is where the frame of all of them starts.
proof fn lemma_trails_add_up(capacity: int, trails: Seq<&Trail>, ribbons: Seq<Ribbon>, m: int)
    requires
        0 <= m <= trails.len(),
    ensures
        ({
            let some = Frame::of_trails(capacity, trails.take(m), ribbons);
            let all = Frame::of_trails(capacity, trails, ribbons);
            &&& some.vertices.len() <= all.vertices.len()
            &&& forall|k: int|
                0 <= k < some.vertices.len() ==> #[trigger] all.vertices[k] == some.vertices[k]
            &&& some.indices.len() <= all.indices.len()
            &&& forall|k: int|
                0 <= k < some.indices.len() ==> #[trigger] all.indices[k] == some.indices[k]
        }),
    decreases trails.len(),
{
    if m < trails.len() {
        let fewer = trails.drop_last();
        lemma_trails_add_up(capacity, fewer, ribbons, m);
        assert(fewer.take(m) =~= trails.take(m));
    } else {
        assert(trails.take(m) =~= trails);
    }
}

/// Every trail that fits is drawn, and drawn whole. Let `start` be the number of
/// vertices that the trails before it take. If it has at least two points and two
/// vertices to a point still fit after `start`, then those vertices are in the
/// frame from `start` on, whatever else is drawn, and its triangles follow those
/// of the trails before; if not, it takes up nothing. Stated of trail `i` and its
/// point `p`.
pub proof fn law_trails_are_drawn_whenever_they_fit(
    capacity: int,
    trails: Seq<&Trail>,
    ribbons: Seq<Ribbon>,
    live: Seq<(ParticleId, Particle)>,
    quads: Seq<Quad>,
    i: int,
    p: int,
)
    requires
        0 <= capacity,
        0 <= i < trails.len(),
        0 <= p < trails[i]@.len(),
        forall|j: int|
            #![trigger trails[j]]
            0 <= j < trails.len() && trails[j]@.len() >= 2 && Frame::of(
                capacity,
                trails.take(j),
                ribbons,
                Seq::empty(),
                quads,
            ).vertices.len() + 2 * trails[j]@.len() <= capacity ==> ribbons[j].points@.len()
                == trails[j]@.len(),
    ensures
        ({
            let whole = Frame::of(capacity, trails, ribbons, live, quads);
            let before = Frame::of(capacity, trails.take(i), ribbons, Seq::empty(), quads);
            let through = Frame::of(capacity, trails.take(i + 1), ribbons, Seq::empty(), quads);
            let start = before.vertices.len() as int;
            let first = before.indices.len() as int;
            let n = trails[i]@.len() as int;
            let point = ribbons[i].points@[p];
            let left = whole.vertices[start + 2 * p];
            let right = whole.vertices[start + 2 * p + 1];
            let q = start + 2 * p;
            let t = first + 6 * p;
            &&& i == 0 ==> start == 0 && first == 0
            &&& !(n >= 2 && start + 2 * n <= capacity) ==> through == before
            &&& n >= 2 && start + 2 * n <= capacity ==> {
                &&& through.vertices.len() == start + 2 * n
                &&& through.indices.len() == first + 6 * (n - 1)
                &&& through.vertices.take(start) == before.vertices
                &&& through.indices.take(first) == before.indices
                &&& whole.vertices.len() >= start + 2 * n
                &&& whole.indices.len() >= first + 6 * (n - 1)
                &&& left.position == point.left
                &&& left.uv.x == point.u
                &&& left.uv.y == ribbons[i].uv.min.y
                &&& left.color == trails[i].tint
                &&& right.position == point.right
                &&& right.uv.x == point.u
                &&& right.uv.y == ribbons[i].uv.max.y
                &&& right.color == trails[i].tint
                &&& p < n - 1 && start + 2 * n <= 0x1_0000_0000 ==> {
                    &&& whole.indices[t] == q
                    &&& whole.indices[t + 1] == q + 1
                    &&& whole.indices[t + 2] == q + 2
                    &&& whole.indices[t + 3] == q + 1
                    &&& whole.indices[t + 4] == q + 3
                    &&& whole.indices[t + 5] == q + 2
                }
            }
        }),
{
    let all = trails.len() as int;
    assert(trails.take(all) =~= trails);
    lemma_matching_in_numbers(capacity, trails, ribbons, quads, i);
    lemma_matching_in_numbers(capacity, trails, ribbons, quads, i + 1);
    assert(trails.take(i + 1).drop_last() =~= trails.take(i));
    let before = Frame::of_trails(capacity, trails.take(i), ribbons);
    let through = Frame::of_trails(capacity, trails.take(i + 1), ribbons);
    law_ribbon_vertex_by_vertex(before, capacity, trails[i], ribbons[i], p);
    assert(through == before.with_trail(capacity, trails[i], ribbons[i]));
    lemma_whole_starts_with_trails(capacity, trails, ribbons, live, quads, i + 1);
}

/// The whole frame starts with the frame of the first trails.
proof fn lemma_whole_starts_with_trails(
    capacity: int,
    trails: Seq<&Trail>,
    ribbons: Seq<Ribbon>,
    live: Seq<(ParticleId, Particle)>,
    quads: Seq<Quad>,
    m: int,
)
    requires
        0 <= capacity,
        0 <= m <= trails.len(),
    ensures
        ({
            let some = Frame::of_trails(capacity, trails.take(m), ribbons);
            let whole = Frame::of(capacity, trails, ribbons, live, quads);
            &&& some.vertices.len() <= whole.vertices.len()
            &&& forall|k: int|
                0 <= k < some.vertices.len() ==> #[trigger] whole.vertices[k] == some.vertices[k]
            &&& some.indices.len() <= whole.indices.len()
            &&& forall|k: int|
                0 <= k < some.indices.len() ==> #[trigger] whole.indices[k] == some.indices[k]
        }),
{
    let some = Frame::of_trails(capacity, trails.take(m), ribbons);
    let bare = Frame::of_trails(capacity, trails, ribbons);
    let whole = Frame::of(capacity, trails, ribbons, live, quads);
    lemma_trails_add_up(capacity, trails, ribbons, m);
    lemma_used_is_bounded(capacity, trails);
    lemma_newest_layout(
        bare,
        live,
        quads,
        particles_drawn(capacity, trails_used(capacity, trails), live.len() as int),
    );
    assert forall|k: int| 0 <= k < some.vertices.len() implies #[trigger] whole.vertices[k]
        == some.vertices[k] by {
        assert(whole.vertices.take(bare.vertices.len() as int)[k] == bare.vertices[k]);
    }
    assert forall|k: int| 0 <= k < some.indices.len() implies #[trigger] whole.indices[k]
        == some.indices[k] by {
        assert(whole.indices.take(bare.indices.len() as int)[k] == bare.indices[k]);
    }
}

/// Particles fill what the trails leave. Each takes four vertices and six
/// indices; and all are drawn, or so many that no further one fits.
pub proof fn law_particles_follow_the_trails(
    capacity: int,
    trails: Seq<&Trail>,
    ribbons: Seq<Ribbon>,
    live: Seq<(ParticleId, Particle)>,
    quads: Seq<Quad>,
)
    requires
        0 <= capacity,
        forall|j: int|
            #![trigger trails[j]]
            0 <= j < trails.len() && trails[j]@.len() >= 2 && Frame::of(
                capacity,
                trails.take(j),
                ribbons,
                Seq::empty(),
                quads,
            ).vertices.len() + 2 * trails[j]@.len() <= capacity ==> ribbons[j].points@.len()
                == trails[j]@.len(),
    ensures
        ({
            let whole = Frame::of(capacity, trails, ribbons, live, quads);
            let bare = Frame::of(capacity, trails, ribbons, Seq::empty(), quads);
            let used = bare.vertices.len() as int;
            let drawn = (whole.vertices.len() - used) / 4;
            &&& trails.len() == 0 ==> used == 0 && bare.indices.len() == 0
            &&& used <= whole.vertices.len() <= capacity
            &&& whole.vertices.len() == used + 4 * drawn
            &&& whole.indices.len() == bare.indices.len() + 6 * drawn
            &&& whole.vertices.take(used) == bare.vertices
            &&& whole.indices.take(bare.indices.len() as int) == bare.indices
            &&& drawn <= live.len()
            &&& drawn < live.len() ==> whole.vertices.len() + 4 > capacity
        }),
{
    let all = trails.len() as int;
    assert(trails.take(all) =~= trails);
    lemma_matching_in_numbers(capacity, trails, ribbons, quads, all);
    lemma_used_is_bounded(capacity, trails);
    let used = trails_used(capacity, trails);
    let bare = Frame::of_trails(capacity, trails, ribbons);
    law_particles_fill_the_room(capacity, used, live.len() as int);
    lemma_newest_layout(
        bare,
        live,
        quads,
        particles_drawn(capacity, used, live.len() as int),
    );
}

/// The drawn particles are the newest ones, the newest first: drawn particle `k`
/// is the one with `k` newer ones in the list. Its four vertices come after those
/// of the trails and of the newer particles, each at its corner of the quad, at
/// its corner of the sprite, whose top is the smaller `v`, and in its tint; its
/// two triangles come after theirs.
pub proof fn law_newest_particles_vertex_by_vertex(
    capacity: int,
    trails: Seq<&Trail>,
    ribbons: Seq<Ribbon>,
    live: Seq<(ParticleId, Particle)>,
    quads: Seq<Quad>,
    k: int,
)
    requires
        0 <= capacity,
        0 <= k,
        forall|j: int|
            #![trigger trails[j]]
            0 <= j < trails.len() && trails[j]@.len() >= 2 && Frame::of(
                capacity,
                trails.take(j),
                ribbons,
                Seq::empty(),
                quads,
            ).vertices.len() + 2 * trails[j]@.len() <= capacity ==> ribbons[j].points@.len()
                == trails[j]@.len(),
    ensures
        ({
            let whole = Frame::of(capacity, trails, ribbons, live, quads);
            let bare = Frame::of(capacity, trails, ribbons, Seq::empty(), quads);
            let base = bare.vertices.len() + 4 * k;
            let t = bare.indices.len() + 6 * k;
            let quad = quads[k];
            let tint = live[live.len() - 1 - k].1.tint;
            k < live.len() && base + 4 <= capacity ==> {
                &&& base + 4 <= whole.vertices.len()
                &&& t + 6 <= whole.indices.len()
                &&& whole.vertices[base].position == quad.corners@[0]
                &&& whole.vertices[base + 1].position == quad.corners@[1]
                &&& whole.vertices[base + 2].position == quad.corners@[2]
                &&& whole.vertices[base + 3].position == quad.corners@[3]
                &&& whole.vertices[base].uv == (Vec2 { x: quad.uv.min.x, y: quad.uv.max.y })
                &&& whole.vertices[base + 1].uv == (Vec2 { x: quad.uv.max.x, y: quad.uv.max.y })
                &&& whole.vertices[base + 2].uv == (Vec2 { x: quad.uv.max.x, y: quad.uv.min.y })
                &&& whole.vertices[base + 3].uv == (Vec2 { x: quad.uv.min.x, y: quad.uv.min.y })
                &&& whole.vertices[base].color == tint
                &&& whole.vertices[base + 1].color == tint
                &&& whole.vertices[base + 2].color == tint
                &&& whole.vertices[base + 3].color == tint
                &&& base + 4 <= 0x1_0000_0000 ==> {
                    &&& whole.indices[t] == base
                    &&& whole.indices[t + 1] == base + 1
                    &&& whole.indices[t + 2] == base + 2
                    &&& whole.indices[t + 3] == base
                    &&& whole.indices[t + 4] == base + 2
                    &&& whole.indices[t + 5] == base + 3
                }
            }
        }),
{
    let all = trails.len() as int;
    assert(trails.take(all) =~= trails);
    lemma_matching_in_numbers(capacity, trails, ribbons, quads, all);
    lemma_used_is_bounded(capacity, trails);
    let used = trails_used(capacity, trails);
    let bare = Frame::of_trails(capacity, trails, ribbons);
    let whole = Frame::of(capacity, trails, ribbons, live, quads);
    let drawn = particles_drawn(capacity, used, live.len() as int);
    let base = used + 4 * k;
    let t = bare.indices.len() + 6 * k;
    if k < live.len() && base + 4 <= capacity {
        law_particles_fill_the_room(capacity, used, live.len() as int);
        assert(k < drawn);
        lemma_newest_layout(bare, live, quads, drawn);
        lemma_newest_indices(bare, live, quads, drawn, k);
        let four = quad_vertices(quads[k], live[live.len() - 1 - k].1.tint);
        let six = quad_indices(base);
        assert(whole.vertices.subrange(base, base + 4) == four);
        assert(whole.indices.subrange(t, t + 6) == six);
        assert(four[0] == whole.vertices[base]);
        assert(four[1] == whole.vertices[base + 1]);
        assert(four[2] == whole.vertices[base + 2]);
        assert(four[3] == whole.vertices[base + 3]);
        assert(six[0] == whole.indices[t]);
        assert(six[1] == whole.indices[t + 1]);
        assert(six[2] == whole.indices[t + 2]);
        assert(six[3] == whole.indices[t + 3]);
        assert(six[4] == whole.indices[t + 4]);
        assert(six[5] == whole.indices[t + 5]);
    }
}

/// What is announced is what is drawn: a trail counts as drawn exactly if it adds
/// to the frame, and the trails count as taking what their frame holds.
pub proof fn law_plan_foretells_the_frame(
    capacity: int,
    trails: Seq<&Trail>,
    ribbons: Seq<Ribbon>,
    live: Seq<(ParticleId, Particle)>,
    quads: Seq<Quad>,
    i: int,
)
    requires
        0 <= capacity,
        0 <= i < trails.len(),
        forall|j: int|
            #![trigger trails[j]]
            0 <= j < trails.len() && trails[j]@.len() >= 2 && Frame::of(
                capacity,
                trails.take(j),
                ribbons,
                Seq::empty(),
                quads,
            ).vertices.len() + 2 * trails[j]@.len() <= capacity ==> ribbons[j].points@.len()
                == trails[j]@.len(),
    ensures
        ({
            let whole = Frame::of(capacity, trails, ribbons, live, quads).vertices.len();
            let bare = Frame::of(capacity, trails, ribbons, Seq::empty(), quads).vertices.len();
            let before = Frame::of(capacity, trails.take(i), ribbons, Seq::empty(), quads);
            let through = Frame::of(capacity, trails.take(i + 1), ribbons, Seq::empty(), quads);
            &&& trails_used(capacity, trails) == bare
            &&& trails_used(capacity, trails.take(i)) == before.vertices.len()
            &&& trail_drawn(capacity, trails, i) <==> before.vertices.len()
                < through.vertices.len()
            &&& 4 * particles_drawn(capacity, bare as int, live.len() as int) == whole - bare
        }),
{
    let all = trails.len() as int;
    assert(trails.take(all) =~= trails);
    lemma_matching_in_numbers(capacity, trails, ribbons, quads, i);
    lemma_matching_in_numbers(capacity, trails, ribbons, quads, i + 1);
    lemma_matching_in_numbers(capacity, trails, ribbons, quads, all);
    assert(trails.take(i + 1).drop_last() =~= trails.take(i));
    law_particles_follow_the_trails(capacity, trails, ribbons, live, quads);
    law_budget_is_kept(capacity, trails, ribbons, live, quads);
}

/// The triangles of particle `k` come after those of the newer ones.
proof fn lemma_newest_indices(
    frame: Frame,
    live: Seq<(ParticleId, Particle)>,
    quads: Seq<Quad>,
    count: int,
    k: int,
)
    requires
        0 <= k < count,
    ensures
        ({
            let after = frame.with_newest(live, quads, count);
            let first = frame.indices.len() as int;
            after.indices.subrange(first + 6 * k, first + 6 * k + 6) == quad_indices(
                frame.vertices.len() + 4 * k,
            )
        }),
    decreases count,
{
    let after = frame.with_newest(live, quads, count);
    let before = frame.with_newest(live, quads, count - 1);
    let first = frame.indices.len() as int;
    lemma_newest_layout(frame, live, quads, count - 1);
    if k < count - 1 {
        lemma_newest_indices(frame, live, quads, count - 1, k);
        assert(after.indices.subrange(first + 6 * k, first + 6 * k + 6)
            =~= before.indices.subrange(first + 6 * k, first + 6 * k + 6));
    } else {
        assert(after.indices.subrange(first + 6 * k, first + 6 * k + 6) =~= quad_indices(
            frame.vertices.len() + 4 * k,
        ));
    }
}

} // verus!
