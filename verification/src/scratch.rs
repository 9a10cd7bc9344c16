//! The frame's geometry, rewritten whole every frame into one buffer of bounded
//! size.
use vstd::prelude::*;

use crate::frame::{self, Frame, FxVertex, Quad, Ribbon};
use crate::particles::{Particle, Particles};
use crate::scalar::{Scalar, Vec2};
use crate::trail::Trail;

verus! {

/// CPU-built geometry for one frame. Holds at most `vertex_capacity` vertices.
pub struct FxScratch {
    pub vertices: Vec<FxVertex>,
    pub indices: Vec<u32>,
    pub vertex_capacity: usize,
}

impl View for FxScratch {
    type V = Frame;

    open spec fn view(&self) -> Frame {
        Frame { vertices: self.vertices@, indices: self.indices@ }
    }
}

/// The way from a quad's center to its corner `k`: the signs of the steps to
/// the right and up.
pub fn corner_signs(k: usize) -> (signs: Vec2)
    requires
        k < 4,
    ensures
        signs.x == if frame::on_right(k as int) {
            Scalar::one()
        } else {
            Scalar::neg_one()
        },
        signs.y == if frame::on_top(k as int) {
            Scalar::one()
        } else {
            Scalar::neg_one()
        },
        signs.x.bits == if k == 1 || k == 2 {
            0x3f80_0000u32
        } else {
            0xbf80_0000u32
        },
        signs.y.bits == if k == 2 || k == 3 {
            0x3f80_0000u32
        } else {
            0xbf80_0000u32
        },
{
    Vec2 {
        x: if k == 1 || k == 2 {
            Scalar::one()
        } else {
            Scalar::neg_one()
        },
        y: if k == 2 || k == 3 {
            Scalar::one()
        } else {
            Scalar::neg_one()
        },
    }
}

/// A trail in a frame of `used` vertices takes all it needs or nothing.
fn fits(capacity: usize, used: usize, points: usize) -> (r: bool)
    ensures
        r == frame::trail_fits(capacity as int, used as int, points as int),
        r == (points >= 2 && used + 2 * points <= capacity),
{
    points >= 2 && used <= capacity && points <= (capacity - used) / 2
}

impl Clone for FxScratch {
    fn clone(&self) -> (copy: FxScratch)
        ensures
            copy@ == self@,
            copy.vertex_capacity == self.vertex_capacity,
    {
        let vertices = self.vertices.clone();
        let indices = self.indices.clone();
        assert(vertices@ =~= self.vertices@);
        assert(indices@ =~= self.indices@);
        FxScratch { vertices, indices, vertex_capacity: self.vertex_capacity }
    }
}

impl FxScratch {
    pub open spec fn wf(&self) -> bool {
        &&& self.vertices@.len() <= self.vertex_capacity
        &&& self@.wf()
    }

    /// An empty scratch with room for `vertex_capacity` vertices, and for as
    /// many indices as they can need.
    pub fn with_capacity(vertex_capacity: usize) -> (scratch: FxScratch)
        requires
            vertex_capacity * 36 <= isize::MAX,
        ensures
            scratch.wf(),
            scratch.vertex_capacity == vertex_capacity,
            scratch@ == Frame::empty(),
            scratch.vertices@.len() == 0,
            scratch.indices@.len() == 0,
    {
        FxScratch {
            vertices: Vec::with_capacity(vertex_capacity),
            indices: Vec::with_capacity(vertex_capacity * 3),
            vertex_capacity,
        }
    }

    /// Adds a particle's quad.
    pub fn emit_particle(&mut self, particle: &Particle, quad: &Quad)
        requires
            old(self).vertices@.len() + 4 <= frame::index_limit(),
        ensures
            final(self).vertex_capacity == old(self).vertex_capacity,
            final(self)@ == old(self)@.with_quad(*quad, particle.tint),
    {
        let base: u32 = self.vertices.len() as u32;
        let mut k: usize = 0;
        while k < 4
            invariant
                k <= 4,
                self.vertex_capacity == old(self).vertex_capacity,
                self.indices == old(self).indices,
                self.vertices@ =~= old(self).vertices@ + frame::quad_vertices(*quad, particle.tint).take(
                    k as int,
                ),
            decreases 4 - k,
        {
            let right = k == 1 || k == 2;
            let top = k == 2 || k == 3;
            let x = if right {
                quad.uv.max.x
            } else {
                quad.uv.min.x
            };
            // The top of the quad is the top of the sprite, which is the
            // smaller v.
            let y = if top {
                quad.uv.min.y
            } else {
                quad.uv.max.y
            };
            self.vertices.push(
                FxVertex { position: quad.corners[k], uv: Vec2 { x, y }, color: particle.tint },
            );
            k = k + 1;
        }
        self.indices.push(base);
        self.indices.push(base + 1);
        self.indices.push(base + 2);
        self.indices.push(base);
        self.indices.push(base + 2);
        self.indices.push(base + 3);
        assert(self@ =~= old(self)@.with_quad(*quad, particle.tint));
    }

    /// Adds a trail's ribbon, unless it is too short to be one or does not fit
    /// whole.
    pub fn emit_trail(&mut self, trail: &Trail, ribbon: &Ribbon)
        requires
            frame::trail_fits(
                old(self).vertex_capacity as int,
                old(self).vertices@.len() as int,
                trail@.len() as int,
            ) ==> {
                &&& ribbon.points@.len() == trail@.len()
                &&& old(self).vertices@.len() + 2 * trail@.len() <= frame::index_limit()
            },
        ensures
            final(self).vertex_capacity == old(self).vertex_capacity,
            final(self)@ == old(self)@.with_trail(
                old(self).vertex_capacity as int,
                trail,
                *ribbon,
            ),
    {
        let n = trail.len();
        if !fits(self.vertex_capacity, self.vertices.len(), n) {
            return;
        }
        let base: u32 = self.vertices.len() as u32;
        let ghost vertices = frame::ribbon_vertices(ribbon.points@, ribbon.uv, trail.tint);
        let mut i: usize = 0;
        while i < n
            invariant
                i <= n,
                n == ribbon.points@.len(),
                2 * n <= frame::index_limit(),
                vertices == frame::ribbon_vertices(ribbon.points@, ribbon.uv, trail.tint),
                self.vertex_capacity == old(self).vertex_capacity,
                self.indices == old(self).indices,
                self.vertices@ =~= old(self).vertices@ + vertices.take(2 * i),
            decreases n - i,
        {
            let point = ribbon.points[i];
            let u = point.u;
            self.vertices.push(
                FxVertex {
                    position: point.left,
                    uv: Vec2 { x: u, y: ribbon.uv.min.y },
                    color: trail.tint,
                },
            );
            self.vertices.push(
                FxVertex {
                    position: point.right,
                    uv: Vec2 { x: u, y: ribbon.uv.max.y },
                    color: trail.tint,
                },
            );
            i = i + 1;
        }
        let mut s: usize = 0;
        while s < n - 1
            invariant
                2 <= n,
                s <= n - 1,
                base + 2 * n <= frame::index_limit(),
                self.vertex_capacity == old(self).vertex_capacity,
                self.vertices@ =~= old(self).vertices@ + vertices.take(2 * n),
                self.indices@ =~= old(self).indices@ + frame::ribbon_indices(base as int, s as int),
            decreases n - 1 - s,
        {
            let q: u32 = base + (s as u32) * 2;
            let ghost before = self.indices@;
            self.indices.push(q);
            self.indices.push(q + 1);
            self.indices.push(q + 2);
            self.indices.push(q + 1);
            self.indices.push(q + 3);
            self.indices.push(q + 2);
            proof {
                assert(self.indices@ =~= before + frame::segment_indices(q as int));
                assert(frame::ribbon_indices(base as int, s + 1) =~= frame::ribbon_indices(base as int, s as int)
                    + frame::segment_indices(q as int));
            }
            s = s + 1;
        }
        assert(vertices.take(2 * n) =~= vertices);
        assert(self@ =~= old(self)@.with_ribbon(ribbon.points@, ribbon.uv, trail.tint));
    }

    /// Whether the geometry covers everything that will be drawn, and the frame
    /// is small enough for its indices.
    pub open spec fn can_draw(
        &self,
        trails: Seq<&Trail>,
        ribbons: Seq<Ribbon>,
        live: int,
        quads: Seq<Quad>,
    ) -> bool {
        let capacity = self.vertex_capacity as int;
        &&& ribbons.len() == trails.len()
        &&& frame::ribbons_match(capacity, trails, ribbons)
        &&& frame::particles_drawn(capacity, frame::trails_used(capacity, trails), live) <= quads.len()
        &&& capacity <= frame::index_limit() || frame::frame_len(capacity, trails, live) <= frame::index_limit()
    }

    /// Writes the whole frame anew: nothing without a camera to see it, else
    /// the trails, few and persistent, and then the particles in what is left,
    /// newest first, so that bursts evict the oldest when the buffer is full.
    ///
    /// `ribbons` holds the geometry of the trails, one for one; `quads` that of
    /// the particles, newest first. Only what [`FxScratch::plan`] names has to
    /// be there.
    pub fn rebuild(
        &mut self,
        camera: bool,
        trails: &Vec<&Trail>,
        ribbons: &Vec<Ribbon>,
        particles: &Particles,
        quads: &Vec<Quad>,
    )
        requires
            camera ==> old(self).can_draw(
                trails@,
                ribbons@,
                particles@.len() as int,
                quads@,
            ),
        ensures
            final(self).wf(),
            final(self).vertex_capacity == old(self).vertex_capacity,
            final(self)@ == if camera {
                Frame::of(
                    old(self).vertex_capacity as int,
                    trails@,
                    ribbons@,
                    particles@,
                    quads@,
                )
            } else {
                Frame::empty()
            },
            !camera ==> final(self).vertices@.len() == 0 && final(self).indices@.len() == 0,
            final(self).vertices@.len() <= final(self).vertex_capacity,
    {
        self.vertices.clear();
        self.indices.clear();
        if !camera {
            return;
        }
        let ghost capacity = self.vertex_capacity as int;
        let ghost live = particles@.len() as int;
        let ghost used = frame::trails_used(capacity, trails@);
        proof {
            frame::lemma_used_is_bounded(capacity, trails@);
            assert(trails@.take(trails@.len() as int) =~= trails@);
        }
        let mut i: usize = 0;
        while i < trails.len()
            invariant
                i <= trails@.len(),
                capacity == self.vertex_capacity,
                self.vertex_capacity == old(self).vertex_capacity,
                old(self).can_draw(trails@, ribbons@, live, quads@),
                live == particles@.len(),
                used == frame::trails_used(capacity, trails@),
                self.wf(),
                self@ == Frame::of_trails(capacity, trails@.take(i as int), ribbons@),
                self.vertices@.len() == frame::trails_used(capacity, trails@.take(i as int)),
            decreases trails@.len() - i,
        {
            let ghost drawn = frame::trail_drawn(capacity, trails@, i as int);
            proof {
                assert(trails@.take(i + 1).drop_last() =~= trails@.take(i as int));
                frame::lemma_used_grows(capacity, trails@, i + 1);
                frame::lemma_used_is_bounded(capacity, trails@);
                if drawn {
                    frame::lemma_ribbon_keeps_wf(
                        self@,
                        ribbons@[i as int].points@,
                        ribbons@[i as int].uv,
                        trails@[i as int].tint,
                    );
                }
            }
            self.emit_trail(trails[i], &ribbons[i]);
            i = i + 1;
        }
        let count = particles.len();
        let mut k: usize = 0;
        while k < count && self.vertex_capacity - self.vertices.len() >= 4
            invariant
                k <= count,
                count == live,
                capacity == self.vertex_capacity,
                self.vertex_capacity == old(self).vertex_capacity,
                old(self).can_draw(trails@, ribbons@, live, quads@),
                live == particles@.len(),
                used == frame::trails_used(capacity, trails@),
                self.wf(),
                self.vertices@.len() == used + 4 * k,
                used + 4 * k <= capacity,
                self@ == Frame::of_trails(capacity, trails@, ribbons@).with_newest(
                    particles@,
                    quads@,
                    k as int,
                ),
            decreases count - k,
        {
            let (_id, particle) = particles.entry(count - 1 - k);
            proof {
                frame::lemma_quad_keeps_wf(self@, quads@[k as int], particle.tint);
            }
            self.emit_particle(&particle, &quads[k]);
            k = k + 1;
        }
    }

    /// Tells in `plan`, whatever it held, what [`FxScratch::rebuild`] will draw,
    /// so that no other geometry has to be computed.
    pub fn plan(&self, camera: bool, trails: &Vec<&Trail>, live: usize, plan: &mut FramePlan)
        ensures
            final(plan).trails@.len() == trails@.len(),
            forall|i: int|
                0 <= i < trails@.len() ==> #[trigger] final(plan).trails@[i] == (camera
                    && frame::trail_drawn(self.vertex_capacity as int, trails@, i)),
            forall|i: int|
                0 <= i < trails@.len() ==> #[trigger] final(plan).trails@[i] == (camera
                    && trails@[i]@.len() >= 2 && frame::trails_used(
                    self.vertex_capacity as int,
                    trails@.take(i),
                ) + 2 * trails@[i]@.len() <= self.vertex_capacity),
            final(plan).particles == if camera {
                frame::particles_drawn(
                    self.vertex_capacity as int,
                    frame::trails_used(self.vertex_capacity as int, trails@),
                    live as int,
                )
            } else {
                0
            },
            final(plan).particles <= live,
            !camera ==> final(plan).particles == 0,
            camera && final(plan).particles < live ==> frame::trails_used(
                self.vertex_capacity as int,
                trails@,
            ) + 4 * final(plan).particles + 4 > self.vertex_capacity,
    {
        let ghost capacity = self.vertex_capacity as int;
        plan.trails.clear();
        let mut used: usize = 0;
        let mut i: usize = 0;
        while i < trails.len()
            invariant
                i <= trails@.len(),
                capacity == self.vertex_capacity,
                plan.trails@.len() == i,
                used <= capacity,
                used == if camera {
                    frame::trails_used(capacity, trails@.take(i as int))
                } else {
                    0
                },
                forall|j: int|
                    0 <= j < i ==> #[trigger] plan.trails@[j] == (camera && frame::trail_drawn(
                        capacity,
                        trails@,
                        j,
                    )),
            decreases trails@.len() - i,
        {
            proof {
                assert(trails@.take(i + 1).drop_last() =~= trails@.take(i as int));
            }
            let n = trails[i].len();
            let draw = camera && fits(self.vertex_capacity, used, n);
            if draw {
                used = used + 2 * n;
            }
            plan.trails.push(draw);
            i = i + 1;
        }
        proof {
            assert(trails@.take(trails@.len() as int) =~= trails@);
        }
        let room = (self.vertex_capacity - used) / 4;
        plan.particles = if !camera {
            0
        } else if live <= room {
            live
        } else {
            room
        };
    }
}

/// What a frame will show: which of the trails, and how many of the newest
/// particles.
pub struct FramePlan {
    pub trails: Vec<bool>,
    pub particles: usize,
}

impl Default for FramePlan {
    fn default() -> (plan: FramePlan)
        ensures
            plan.trails@ == Seq::<bool>::empty(),
            plan.particles == 0,
    {
        FramePlan { trails: Vec::new(), particles: 0 }
    }
}

/// The geometry of what is drawn is enough to draw a frame of at most 2^32
/// vertices: a ribbon with a place for every point of each trail that has at
/// least two points and fits after the trails before it, and a quad for each of
/// the newest particles, as far as they fit in what the trails leave.
pub proof fn law_geometry_of_what_fits_is_enough(
    scratch: FxScratch,
    trails: Seq<&Trail>,
    ribbons: Seq<Ribbon>,
    live: int,
    quads: Seq<Quad>,
)
    requires
        scratch.vertex_capacity <= 0x1_0000_0000,
        ribbons.len() == trails.len(),
        forall|j: int|
            #![trigger trails[j]]
            0 <= j < trails.len() && trails[j]@.len() >= 2 && Frame::of(
                scratch.vertex_capacity as int,
                trails.take(j),
                ribbons,
                Seq::empty(),
                quads,
            ).vertices.len() + 2 * trails[j]@.len() <= scratch.vertex_capacity
                ==> ribbons[j].points@.len() == trails[j]@.len(),
        0 <= live,
        live <= quads.len() || scratch.vertex_capacity < Frame::of(
            scratch.vertex_capacity as int,
            trails,
            ribbons,
            Seq::empty(),
            quads,
        ).vertices.len() + 4 * quads.len() + 4,
    ensures
        scratch.can_draw(trails, ribbons, live, quads),
{
    let capacity = scratch.vertex_capacity as int;
    assert(trails.take(trails.len() as int) =~= trails);
    frame::lemma_matching_in_numbers(capacity, trails, ribbons, quads, trails.len() as int);
    frame::lemma_used_is_bounded(capacity, trails);
}

} // verus!
